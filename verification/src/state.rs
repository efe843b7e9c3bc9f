//! The mathematical model of an editing session: the buffer with its cursor,
//! the viewport, and the search, with what each command does to them.

use vstd::prelude::*;
use vstd::arithmetic::div_mod::{lemma_add_mod_noop_right, lemma_mod_bound};
use crate::buffer::{
    clamp, lemma_delete_char_keeps_wf, lemma_insert_char_keeps_wf, lemma_movements_keep_wf,
    lemma_split_line_keeps_wf, lemma_split_then_delete_restores, Buffer, CursorPosition,
};
use crate::frame::{mark_fits, segments_from, Mark, SearchInfo, SegmentView, StatusSummary};
use crate::keys::{normal_command, search_command, Command, Effect, KeyPress};
use crate::scan::{
    find_all, lemma_scan_reports_occurrences, lemma_scan_spans_in_order, scan,
};
use crate::text::views;

verus! {

/// One occurrence of the query: the half-open range of columns from `start`
/// to `end` on line `line`.
#[derive(Clone, Copy, Debug, PartialEq, Eq, Structural)]
pub struct Match {
    pub line: usize,
    pub start: usize,
    pub end: usize,
}

/// The matches of `query` on one line, in scan order.
pub open spec fn line_matches(row: int, line: Seq<char>, query: Seq<char>) -> Seq<Match> {
    Seq::new(
        scan(line, query).len(),
        |k: int|
            Match {
                line: row as usize,
                start: scan(line, query)[k].0,
                end: scan(line, query)[k].1,
            },
    )
}

/// The matches of `query` on the first `count` lines, line by line.
pub open spec fn matches_upto(lines: Seq<Seq<char>>, query: Seq<char>, count: int) -> Seq<Match>
    decreases count,
{
    if count <= 0 {
        Seq::empty()
    } else {
        matches_upto(lines, query, count - 1) + line_matches(count - 1, lines[count - 1], query)
    }
}

/// All matches of `query` in the buffer, line by line and in scan order
/// within each line. No match spans two lines.
pub open spec fn buffer_matches(lines: Seq<Seq<char>>, query: Seq<char>) -> Seq<Match> {
    matches_upto(lines, query, lines.len() as int)
}

/// Whether a match on `row` that starts in column `start` is drawn as the
/// current match: it is where the current match is on that row and starts in
/// that column.
pub open spec fn marks_current(current: Option<Match>, row: int, start: usize) -> bool {
    match current {
        Some(found) => found.line == row && found.start == start,
        None => false,
    }
}

/// The marks on a row among the first `count` of the matches `found`: one
/// for each of them that lies on the row, in their order.
pub open spec fn marks_among(
    found: Seq<Match>,
    row: int,
    current: Option<Match>,
    count: int,
) -> Seq<Mark>
    decreases count,
{
    if count <= 0 {
        Seq::empty()
    } else if found[count - 1].line == row {
        marks_among(found, row, current, count - 1).push(
            Mark {
                start: found[count - 1].start,
                end: found[count - 1].end,
                current: marks_current(current, row, found[count - 1].start),
            },
        )
    } else {
        marks_among(found, row, current, count - 1)
    }
}

/// The marks of the spans that a scan of one line gives, as they are drawn
/// on `row`.
pub open spec fn scan_marks(
    line: Seq<char>,
    query: Seq<char>,
    row: int,
    current: Option<Match>,
) -> Seq<Mark> {
    Seq::new(
        scan(line, query).len(),
        |k: int|
            Mark {
                start: scan(line, query)[k].0,
                end: scan(line, query)[k].1,
                current: marks_current(current, row, scan(line, query)[k].0),
            },
    )
}

/// Every mark fits the line after the marks before it, so that cutting the
/// line into segments passes none of them over.
pub open spec fn marks_all_fit(line: Seq<char>, marks: Seq<Mark>, from: int) -> bool
    decreases marks.len(),
{
    marks.len() == 0 || (mark_fits(line, marks[0], from) && marks_all_fit(
        line,
        marks.drop_first(),
        marks[0].end as int,
    ))
}

/// The place that a match names lies in the buffer: its line is one of the
/// lines, and its first column is not past the end of that line.
pub open spec fn target_in_buffer(lines: Seq<Seq<char>>, found: Match) -> bool {
    found.line < lines.len() && found.start <= lines[found.line as int].len()
}

/// The number of text rows that a terminal of the given size shows: all but
/// the two rows kept for the search line and the status line.
pub open spec fn visible_rows(terminal_size: (u16, u16)) -> int {
    if terminal_size.1 >= 2 {
        terminal_size.1 - 2
    } else {
        0
    }
}

/// The first visible row once the view has followed the cursor: a cursor at
/// or below the bottom of the view becomes its last row, a cursor above the
/// view its first row, and a cursor within the view leaves it alone.
pub open spec fn scroll_target(row: int, scroll_offset: int, height: int) -> int {
    if row >= scroll_offset + height {
        row - height + 1
    } else if row < scroll_offset {
        row
    } else {
        scroll_offset
    }
}

/// The largest scroll offset that paging reaches: the one that shows the last
/// `height` lines, or zero where the text is no longer than the view.
pub open spec fn scroll_limit(line_count: int, height: int) -> int {
    if line_count > height {
        line_count - height
    } else {
        0
    }
}

/// The next index in a cycle of `count`.
pub open spec fn next_in_cycle(current: int, count: int) -> int {
    (current + 1) % count
}

/// The previous index in a cycle of `count`.
pub open spec fn previous_in_cycle(current: int, count: int) -> int {
    if current <= 0 {
        count - 1
    } else {
        current - 1
    }
}

/// The status line of a session in which nothing has happened yet.
pub open spec fn help_message() -> Seq<char> {
    "Help: Ctrl-Q = quit, Ctrl-S = save, Ctrl-F = search"@
}

/// The status line while a search is being typed.
pub open spec fn search_message() -> Seq<char> {
    "Search mode: Type to search, Enter to exit"@
}

/// The name under which a text without a name is saved.
pub open spec fn default_filename() -> Seq<char> {
    "output.txt"@
}

/// The status line after the file `filename` has been opened.
pub open spec fn opened_message(filename: Seq<char>) -> Seq<char> {
    "Opened "@ + filename
}

/// The status line after the text has been saved to `filename`.
pub open spec fn saved_message(filename: Seq<char>) -> Seq<char> {
    "Saved to "@ + filename
}

/// The `char`s of each string of a sequence.
pub open spec fn string_views(strings: Seq<String>) -> Seq<Seq<char>> {
    Seq::new(strings.len(), |i: int| strings[i]@)
}

/// What is left to the shell after a command: to write the file after
/// `Save`, and nothing after any other.
pub open spec fn effect_of(command: Option<Command>) -> Effect {
    match command {
        Some(Command::Save) => Effect::Save,
        _ => Effect::Done,
    }
}

/// The whole state of an editing session.
pub struct EditorState {
    pub buffer: Buffer,
    pub scroll_offset: int,
    pub terminal_size: (u16, u16),
    pub should_quit: bool,
    pub filename: Option<Seq<char>>,
    pub status_message: Seq<char>,
    pub search_mode: bool,
    pub search_query: Seq<char>,
    pub search_matches: Seq<Match>,
    pub current_match: int,
}

impl EditorState {
    /// The buffer is well-formed, the scroll offset is not negative, and the
    /// current match is one of the matches, or the first index where there
    /// are none.
    pub open spec fn wf(self) -> bool {
        &&& self.buffer.wf()
        &&& 0 <= self.scroll_offset
        &&& if self.search_matches.len() == 0 {
            self.current_match == 0
        } else {
            0 <= self.current_match < self.search_matches.len()
        }
    }

    /// The matches are those of the query in the buffer as it stands. A
    /// search makes them so. An edit of the text leaves the matches as they
    /// were, so that they may no longer be: they are not kept up with the
    /// text, and only a new search makes them fresh again.
    pub open spec fn matches_fresh(self) -> bool {
        self.search_matches == buffer_matches(self.buffer.lines, self.search_query)
    }

    /// The buffer fits the machine: the number of its lines and the length
    /// of each line can be held in a `usize`. This holds of every session
    /// that exists at run time.
    pub open spec fn fits(self) -> bool {
        &&& self.buffer.lines.len() <= usize::MAX
        &&& forall|i: int|
            0 <= i < self.buffer.lines.len() ==> (#[trigger] self.buffer.lines[i]).len()
                <= usize::MAX
    }

    /// The number of text rows on the screen.
    pub open spec fn height(self) -> int {
        visible_rows(self.terminal_size)
    }

    /// A new session on a terminal of the given size, or of 80 columns and 24
    /// rows where the size is not known.
    pub open spec fn initial(size: Option<(u16, u16)>) -> EditorState {
        EditorState {
            buffer: Buffer::empty(),
            scroll_offset: 0,
            terminal_size: match size {
                Some(size) => size,
                None => (80u16, 24u16),
            },
            should_quit: false,
            filename: None,
            status_message: help_message(),
            search_mode: false,
            search_query: Seq::empty(),
            search_matches: Seq::empty(),
            current_match: 0,
        }
    }

    /// The matches dropped.
    pub open spec fn without_matches(self) -> EditorState {
        EditorState { search_matches: Seq::empty(), current_match: 0, ..self }
    }

    /// The buffer edited or the cursor moved, as given, and everything else,
    /// the view and the search among it, as it was.
    pub open spec fn with_buffer(self, buffer: Buffer) -> EditorState {
        EditorState { buffer, ..self }
    }

    /// The terminal's size taken over where it is known.
    pub open spec fn resized(self, size: Option<(u16, u16)>) -> EditorState {
        match size {
            Some(size) => EditorState { terminal_size: size, ..self },
            None => self,
        }
    }

    /// The view scrolled so that it shows the cursor's row.
    pub open spec fn scrolled(self) -> EditorState {
        EditorState {
            scroll_offset: scroll_target(self.buffer.row, self.scroll_offset, self.height()),
            ..self
        }
    }

    /// The view and the cursor moved up by one screen.
    pub open spec fn paged_up(self) -> EditorState {
        EditorState {
            scroll_offset: clamp(
                self.scroll_offset - self.height(),
                0,
                scroll_limit(self.buffer.lines.len() as int, self.height()),
            ),
            buffer: self.buffer.page_up(self.height()),
            ..self
        }
    }

    /// The view and the cursor moved down by one screen.
    pub open spec fn paged_down(self) -> EditorState {
        EditorState {
            scroll_offset: clamp(
                self.scroll_offset + self.height(),
                0,
                scroll_limit(self.buffer.lines.len() as int, self.height()),
            ),
            buffer: self.buffer.page_down(self.height()),
            ..self
        }
    }

    /// Search mode entered, with an empty query and no matches.
    pub open spec fn search_entered(self) -> EditorState {
        EditorState {
            search_mode: true,
            search_query: Seq::empty(),
            status_message: search_message(),
            ..self.without_matches()
        }
    }

    /// Search mode left, the query and the matches dropped.
    pub open spec fn search_exited(self) -> EditorState {
        EditorState {
            search_mode: false,
            search_query: Seq::empty(),
            status_message: help_message(),
            ..self.without_matches()
        }
    }

    /// There is a match with the given index, and the place it names still
    /// lies in the buffer.
    pub open spec fn can_jump(self, index: int) -> bool {
        0 <= index < self.search_matches.len() && target_in_buffer(
            self.buffer.lines,
            self.search_matches[index],
        )
    }

    /// The cursor put on the match with the given index and that match made
    /// current; nothing where there is no such match, or where the text has
    /// changed so that the place it names is no longer in the buffer.
    pub open spec fn jumped(self, index: int) -> EditorState {
        if self.can_jump(index) {
            EditorState {
                buffer: self.buffer.at(
                    self.search_matches[index].line as int,
                    self.search_matches[index].start as int,
                ),
                current_match: index,
                ..self
            }
        } else {
            self
        }
    }

    /// The match with the given index made current, and the cursor put on it
    /// where the place it names still lies in the buffer.
    pub open spec fn stepped_to(self, index: int) -> EditorState {
        (EditorState { current_match: index, ..self }).jumped(index)
    }

    /// The matches rebuilt from the buffer, and the cursor put on the first
    /// of them where there is one.
    pub open spec fn searched(self) -> EditorState {
        (EditorState {
            search_matches: buffer_matches(self.buffer.lines, self.search_query),
            current_match: 0,
            ..self
        }).jumped(0)
    }

    /// The query replaced and the search run anew.
    pub open spec fn with_query(self, query: Seq<char>) -> EditorState {
        (EditorState { search_query: query, ..self }).searched()
    }

    /// The next match made current, the first after the last, and the
    /// cursor put on it; nothing where there are no matches.
    pub open spec fn next_match(self) -> EditorState {
        if self.search_matches.len() > 0 {
            self.stepped_to(next_in_cycle(self.current_match, self.search_matches.len() as int))
        } else {
            self
        }
    }

    /// The previous match made current, the last before the first, and the
    /// cursor put on it; nothing where there are no matches.
    pub open spec fn previous_match(self) -> EditorState {
        if self.search_matches.len() > 0 {
            self.stepped_to(
                previous_in_cycle(self.current_match, self.search_matches.len() as int),
            )
        } else {
            self
        }
    }

    /// `next_match` applied `times` times.
    pub open spec fn next_match_times(self, times: nat) -> EditorState
        decreases times,
    {
        if times == 0 {
            self
        } else {
            self.next_match_times((times - 1) as nat).next_match()
        }
    }

    /// The session after the file `filename` with the given lines has been
    /// opened in it.
    pub open spec fn opened(self, filename: Seq<char>, lines: Seq<Seq<char>>) -> EditorState {
        EditorState {
            filename: Some(filename),
            status_message: opened_message(filename),
            ..self.with_lines(lines)
        }
    }

    /// The name of the file that the text is saved to: its own, or
    /// `output.txt` where it has none.
    pub open spec fn save_name(self) -> Seq<char> {
        match self.filename {
            Some(name) => name,
            None => default_filename(),
        }
    }

    /// The session about to be saved: the text has the name it is saved
    /// under.
    pub open spec fn save_begun(self) -> EditorState {
        EditorState { filename: Some(self.save_name()), ..self }
    }

    /// The session after a save: the status line says where the text went.
    pub open spec fn save_finished(self) -> EditorState {
        EditorState {
            filename: Some(self.save_name()),
            status_message: saved_message(self.save_name()),
            ..self
        }
    }

    /// The current match, where there is one.
    pub open spec fn current(self) -> Option<Match> {
        if 0 <= self.current_match < self.search_matches.len() {
            Some(self.search_matches[self.current_match])
        } else {
            None
        }
    }

    /// Matches are highlighted while a search is being typed and its query
    /// is not empty.
    pub open spec fn highlights(self) -> bool {
        self.search_mode && self.search_query.len() > 0
    }

    /// The marks that are drawn on a row.
    pub open spec fn row_marks(self, row: int) -> Seq<Mark> {
        if self.highlights() {
            marks_among(
                self.search_matches,
                row,
                self.current(),
                self.search_matches.len() as int,
            )
        } else {
            Seq::empty()
        }
    }

    /// A row cut into the segments it is drawn in.
    pub open spec fn row_segments(self, row: int) -> Seq<SegmentView> {
        segments_from(self.buffer.lines[row], self.row_marks(row), 0)
    }

    /// The first row in view: the scroll offset, or the end of the text where
    /// the offset lies past it.
    pub open spec fn first_visible(self) -> int {
        if self.scroll_offset <= self.buffer.lines.len() {
            self.scroll_offset
        } else {
            self.buffer.lines.len() as int
        }
    }

    /// The row after the last one in view.
    pub open spec fn end_visible(self) -> int {
        if self.scroll_offset + self.height() <= self.buffer.lines.len() {
            self.scroll_offset + self.height()
        } else {
            self.buffer.lines.len() as int
        }
    }

    /// The rows in view, from the top down, each cut into segments.
    pub open spec fn visible_lines(self) -> Seq<Seq<SegmentView>> {
        Seq::new(
            (self.end_visible() - self.first_visible()) as nat,
            |i: int| self.row_segments(self.first_visible() + i),
        )
    }

    /// The place of the cursor on the screen: its column, and its row counted
    /// from the first row in view, where that row is on the screen.
    pub open spec fn cursor_screen_position(self) -> Option<CursorPosition> {
        let row = if self.buffer.row >= self.scroll_offset {
            self.buffer.row - self.scroll_offset
        } else {
            0
        };
        if row < self.height() {
            Some(CursorPosition { x: self.buffer.col as usize, y: row as usize })
        } else {
            None
        }
    }

    /// What the search line says of the matches.
    pub open spec fn search_info(self) -> SearchInfo {
        if self.search_matches.len() > 0 {
            SearchInfo::Matches {
                count: self.search_matches.len() as usize,
                current: (self.current_match + 1) as usize,
            }
        } else if self.search_query.len() > 0 {
            SearchInfo::NoMatches
        } else {
            SearchInfo::Blank
        }
    }

    /// The numbers of the status line.
    pub open spec fn status_summary(self) -> StatusSummary {
        StatusSummary {
            current_line: self.buffer.row as usize,
            total_lines: self.buffer.lines.len() as usize,
            current_column: self.buffer.col as usize,
            scroll_offset: self.scroll_offset as usize,
            match_count: self.search_matches.len() as usize,
            current_match_ordinal: if self.search_matches.len() > 0 {
                (self.current_match + 1) as usize
            } else {
                0
            },
        }
    }

    /// The state after one command.
    pub open spec fn applied(self, command: Command) -> EditorState {
        match command {
            Command::InsertChar(c) => self.with_buffer(self.buffer.insert_char(c)),
            Command::Backspace => self.with_buffer(self.buffer.delete_char()),
            Command::Enter => self.with_buffer(self.buffer.split_line()),
            Command::ArrowLeft => self.with_buffer(self.buffer.move_left()),
            Command::ArrowRight => self.with_buffer(self.buffer.move_right()),
            Command::ArrowUp => self.with_buffer(self.buffer.move_up()),
            Command::ArrowDown => self.with_buffer(self.buffer.move_down()),
            Command::PageUp => self.paged_up(),
            Command::PageDown => self.paged_down(),
            Command::ToggleSearch => if self.search_mode {
                self.search_exited()
            } else {
                self.search_entered()
            },
            Command::SearchInput(c) => self.with_query(self.search_query.push(c)),
            Command::SearchBackspace => if self.search_query.len() > 0 {
                self.with_query(self.search_query.drop_last())
            } else {
                self
            },
            Command::SearchNext => self.next_match(),
            Command::SearchPrevious => self.previous_match(),
            Command::ExitSearch => self.search_exited(),
            Command::Save => self,
            Command::Quit => EditorState { should_quit: true, ..self },
        }
    }

    /// The state after a sequence of commands, the first of them first.
    pub open spec fn applied_all(self, commands: Seq<Command>) -> EditorState
        decreases commands.len(),
    {
        if commands.len() == 0 {
            self
        } else {
            self.applied_all(commands.drop_last()).applied(commands.last())
        }
    }

    /// The command that a key press stands for in the mode the session is
    /// in.
    pub open spec fn command_for(self, key: KeyPress) -> Option<Command> {
        if self.search_mode {
            search_command(key)
        } else {
            normal_command(key)
        }
    }

    /// The state after a key press: after the command it stands for, or as
    /// before where it stands for none.
    pub open spec fn after_key(self, key: KeyPress) -> EditorState {
        match self.command_for(key) {
            Some(command) => self.applied(command),
            None => self,
        }
    }

    /// The buffer replaced by the given lines, or by one empty line where
    /// none are given; the cursor and the view at the top, the search
    /// forgotten.
    pub open spec fn with_lines(self, lines: Seq<Seq<char>>) -> EditorState {
        EditorState {
            buffer: Buffer::loaded(lines),
            scroll_offset: 0,
            search_query: Seq::empty(),
            ..self.without_matches()
        }
    }
}

/// Every match of a query in the buffer lies on a line of the buffer and
/// within it, and is an occurrence of the query there.
pub proof fn lemma_matches_lie_in_buffer(
    lines: Seq<Seq<char>>,
    query: Seq<char>,
    count: int,
    k: int,
)
    requires
        0 <= count <= lines.len() <= usize::MAX,
        forall|i: int| 0 <= i < lines.len() ==> (#[trigger] lines[i]).len() <= usize::MAX,
        0 <= k < matches_upto(lines, query, count).len(),
    ensures
        ({
            let found = matches_upto(lines, query, count)[k];
            &&& found.line < count
            &&& found.start <= found.end <= lines[found.line as int].len()
            &&& found.end - found.start == query.len()
            &&& lines[found.line as int].subrange(found.start as int, found.end as int) == query
        }),
    decreases count,
{
    let before = matches_upto(lines, query, count - 1);
    if k < before.len() {
        lemma_matches_lie_in_buffer(lines, query, count - 1, k);
    } else {
        let line = lines[count - 1];
        let here = line_matches(count - 1, line, query);
        assert(matches_upto(lines, query, count)[k] == here[k - before.len()]);
        lemma_scan_reports_occurrences(line, query, 0, k - before.len());
    }
}

/// The marks among the first matches of a sequence are not changed by
/// matches added after them.
pub proof fn lemma_marks_among_prefix(
    first: Seq<Match>,
    second: Seq<Match>,
    row: int,
    current: Option<Match>,
    count: int,
)
    requires
        0 <= count <= first.len(),
    ensures
        marks_among(first + second, row, current, count) == marks_among(
            first,
            row,
            current,
            count,
        ),
    decreases count,
{
    if count > 0 {
        lemma_marks_among_prefix(first, second, row, current, count - 1);
        assert((first + second)[count - 1] == first[count - 1]);
    }
}

/// The marks among two runs of matches, one after the other, are the marks
/// among the first followed by the marks among the second.
pub proof fn lemma_marks_among_concat(
    first: Seq<Match>,
    second: Seq<Match>,
    row: int,
    current: Option<Match>,
    count: int,
)
    requires
        0 <= count <= second.len(),
    ensures
        marks_among(first + second, row, current, first.len() + count) == marks_among(
            first,
            row,
            current,
            first.len() as int,
        ) + marks_among(second, row, current, count),
    decreases count,
{
    let whole = first + second;
    let head = marks_among(first, row, current, first.len() as int);
    if count == 0 {
        lemma_marks_among_prefix(first, second, row, current, first.len() as int);
        assert(head + Seq::<Mark>::empty() =~= head);
    } else {
        lemma_marks_among_concat(first, second, row, current, count - 1);
        assert(whole[first.len() + count - 1] == second[count - 1]);
        let before = marks_among(second, row, current, count - 1);
        if second[count - 1].line == row {
            let mark = Mark {
                start: second[count - 1].start,
                end: second[count - 1].end,
                current: marks_current(current, row, second[count - 1].start),
            };
            assert((head + before).push(mark) =~= head + before.push(mark));
        }
    }
}

/// The matches of one line give marks on that line's row only, and there
/// they give one mark for each span of the scan of the line.
pub proof fn lemma_marks_of_line(
    at: int,
    line: Seq<char>,
    query: Seq<char>,
    row: int,
    current: Option<Match>,
    count: int,
)
    requires
        0 <= at <= usize::MAX,
        0 <= row,
        0 <= count <= scan(line, query).len(),
    ensures
        marks_among(line_matches(at, line, query), row, current, count) == if at == row {
            scan_marks(line, query, row, current).subrange(0, count)
        } else {
            Seq::empty()
        },
    decreases count,
{
    if count > 0 {
        lemma_marks_of_line(at, line, query, row, current, count - 1);
        if at == row {
            let marks = scan_marks(line, query, row, current);
            assert(marks.subrange(0, count - 1).push(marks[count - 1]) =~= marks.subrange(
                0,
                count,
            ));
        }
    } else {
        assert(scan_marks(line, query, row, current).subrange(0, 0) =~= Seq::<Mark>::empty());
    }
}

/// The marks that the matches of a buffer give on one of its rows are the
/// marks of the scan of that row's line.
pub proof fn lemma_marks_of_buffer(
    lines: Seq<Seq<char>>,
    query: Seq<char>,
    row: int,
    current: Option<Match>,
    count: int,
)
    requires
        0 <= row,
        0 <= count <= lines.len() <= usize::MAX,
    ensures
        marks_among(
            matches_upto(lines, query, count),
            row,
            current,
            matches_upto(lines, query, count).len() as int,
        ) == if row < count {
            scan_marks(lines[row], query, row, current)
        } else {
            Seq::empty()
        },
    decreases count,
{
    if count > 0 {
        let before = matches_upto(lines, query, count - 1);
        let here = line_matches(count - 1, lines[count - 1], query);
        lemma_marks_of_buffer(lines, query, row, current, count - 1);
        lemma_marks_among_concat(before, here, row, current, here.len() as int);
        lemma_marks_of_line(
            count - 1,
            lines[count - 1],
            query,
            row,
            current,
            here.len() as int,
        );
        let earlier = marks_among(before, row, current, before.len() as int);
        if row == count - 1 {
            let marks = scan_marks(lines[row], query, row, current);
            assert(marks.subrange(0, marks.len() as int) =~= marks);
            assert(earlier + marks =~= marks);
        } else {
            assert(earlier + Seq::<Mark>::empty() =~= earlier);
        }
    }
}

/// The marks of a scan, from the one with index `first` on, all fit the line
/// after the end of the mark before them.
pub proof fn lemma_scan_marks_fit(
    line: Seq<char>,
    query: Seq<char>,
    row: int,
    current: Option<Match>,
    first: int,
)
    requires
        line.len() <= usize::MAX,
        0 <= first <= scan(line, query).len(),
    ensures
        marks_all_fit(
            line,
            scan_marks(line, query, row, current).subrange(first, scan(line, query).len() as int),
            if first == 0 {
                0
            } else {
                scan(line, query)[first - 1].1 as int
            },
        ),
    decreases scan(line, query).len() - first,
{
    let spans = scan(line, query);
    let marks = scan_marks(line, query, row, current);
    let rest = marks.subrange(first, spans.len() as int);
    if first < spans.len() {
        lemma_scan_marks_fit(line, query, row, current, first + 1);
        lemma_scan_reports_occurrences(line, query, 0, first);
        if first > 0 {
            lemma_scan_spans_in_order(line, query, 0, first - 1, first);
        }
        assert(rest[0] == marks[first]);
        assert(rest.drop_first() =~= marks.subrange(first + 1, spans.len() as int));
    }
}

/// After a search every match is highlighted: the marks on each row of the
/// buffer are those of the scan of its line, one for each span, and cutting
/// the line into segments passes none of them over.
pub proof fn lemma_every_match_is_marked(state: EditorState, row: int)
    requires
        state.highlights(),
        state.matches_fresh(),
        state.fits(),
        0 <= row < state.buffer.lines.len(),
    ensures
        state.row_marks(row) == scan_marks(
            state.buffer.lines[row],
            state.search_query,
            row,
            state.current(),
        ),
        marks_all_fit(state.buffer.lines[row], state.row_marks(row), 0),
{
    let lines = state.buffer.lines;
    lemma_marks_of_buffer(lines, state.search_query, row, state.current(), lines.len() as int);
    lemma_scan_marks_fit(lines[row], state.search_query, row, state.current(), 0);
    let marks = scan_marks(lines[row], state.search_query, row, state.current());
    assert(marks.subrange(0, marks.len() as int) =~= marks);
}

/// All matches of `query` in `lines`, line by line and in scan order within
/// each line.
pub fn find_in_lines(lines: &Vec<Vec<char>>, query: &[char]) -> (found: Vec<Match>)
    ensures
        found@ == buffer_matches(views(lines@), query@),
{
    let mut found: Vec<Match> = Vec::new();
    let mut row: usize = 0;
    while row < lines.len()
        invariant
            row <= lines.len(),
            found@ == matches_upto(views(lines@), query@, row as int),
        decreases lines.len() - row,
    {
        let spans = find_all(lines[row].as_slice(), query);
        let ghost before = found@;
        let ghost here = line_matches(row as int, lines@[row as int]@, query@);
        let mut k: usize = 0;
        while k < spans.len()
            invariant
                row < lines.len(),
                k <= spans.len(),
                spans@ == scan(lines@[row as int]@, query@),
                here == line_matches(row as int, lines@[row as int]@, query@),
                found@ == before + here.subrange(0, k as int),
            decreases spans.len() - k,
        {
            let span = spans[k];
            found.push(Match { line: row, start: span.0, end: span.1 });
            proof {
                assert(here[k as int] == Match { line: row, start: span.0, end: span.1 });
                assert(before + here.subrange(0, k + 1) =~= (before + here.subrange(
                    0,
                    k as int,
                )).push(here[k as int]));
            }
            k += 1;
        }
        proof {
            assert(here.subrange(0, here.len() as int) =~= here);
            assert(views(lines@)[row as int] == lines@[row as int]@);
        }
        row += 1;
    }
    found
}

/// An empty query has no matches in any buffer.
pub proof fn lemma_empty_query_matches_nothing(
    lines: Seq<Seq<char>>,
    query: Seq<char>,
    count: int,
)
    requires
        query.len() == 0,
    ensures
        matches_upto(lines, query, count).len() == 0,
    decreases count,
{
    if count > 0 {
        lemma_empty_query_matches_nothing(lines, query, count - 1);
    }
}

/// A well-formed buffer put into a well-formed session gives a well-formed
/// session, with the view and the search as they were.
pub proof fn lemma_with_buffer_is_wf(state: EditorState, buffer: Buffer)
    requires
        state.wf(),
        buffer.wf(),
    ensures
        state.with_buffer(buffer).wf(),
        state.with_buffer(buffer).scroll_offset == state.scroll_offset,
        state.with_buffer(buffer).search_query == state.search_query,
        state.with_buffer(buffer).search_matches == state.search_matches,
        state.with_buffer(buffer).current_match == state.current_match,
{
}

/// Every command keeps the session well-formed.
pub proof fn lemma_commands_keep_wf(state: EditorState, command: Command)
    requires
        state.wf(),
    ensures
        state.applied(command).wf(),
{
    match command {
        Command::InsertChar(c) => {
            lemma_insert_char_keeps_wf(state.buffer, c);
        },
        Command::Backspace => {
            lemma_delete_char_keeps_wf(state.buffer);
        },
        Command::Enter => {
            lemma_split_line_keeps_wf(state.buffer);
        },
        Command::ArrowLeft => {
            lemma_movements_keep_wf(state.buffer, 0);
        },
        Command::ArrowRight => {
            lemma_movements_keep_wf(state.buffer, 0);
        },
        Command::ArrowUp => {
            lemma_movements_keep_wf(state.buffer, 0);
        },
        Command::ArrowDown => {
            lemma_movements_keep_wf(state.buffer, 0);
        },
        Command::PageUp => {
            lemma_paging_bounds(state);
        },
        Command::PageDown => {
            lemma_paging_bounds(state);
        },
        Command::ToggleSearch => {},
        Command::SearchInput(c) => {
            lemma_searched_is_wf(EditorState { search_query: state.search_query.push(c), ..state });
        },
        Command::SearchBackspace => {
            if state.search_query.len() > 0 {
                lemma_searched_is_wf(
                    EditorState { search_query: state.search_query.drop_last(), ..state },
                );
            }
        },
        Command::SearchNext => {},
        Command::SearchPrevious => {},
        Command::ExitSearch => {},
        Command::Save => {},
        Command::Quit => {},
    }
}

/// After any sequence of commands the session is still well-formed: the
/// buffer has at least one line, the cursor lies within it, and the current
/// match is one of the matches.
pub proof fn lemma_command_sequences_keep_wf(state: EditorState, commands: Seq<Command>)
    requires
        state.wf(),
    ensures
        state.applied_all(commands).wf(),
        state.applied_all(commands).buffer.lines.len() >= 1,
    decreases commands.len(),
{
    if commands.len() > 0 {
        lemma_command_sequences_keep_wf(state, commands.drop_last());
        lemma_commands_keep_wf(state.applied_all(commands.drop_last()), commands.last());
    }
}

/// An edit of the text or a movement of the cursor leaves the view and the
/// whole search as they were: the mode, the query, the matches and the
/// current match.
pub proof fn lemma_edits_keep_the_search(state: EditorState, command: Command)
    requires
        command is InsertChar || command is Backspace || command is Enter || command is ArrowLeft
            || command is ArrowRight || command is ArrowUp || command is ArrowDown,
    ensures
        state.applied(command).scroll_offset == state.scroll_offset,
        state.applied(command).search_mode == state.search_mode,
        state.applied(command).search_query == state.search_query,
        state.applied(command).search_matches == state.search_matches,
        state.applied(command).current_match == state.current_match,
{
}

/// A movement of the cursor keeps fresh matches fresh, since it leaves the
/// text alone.
pub proof fn lemma_movements_keep_matches_fresh(state: EditorState, command: Command)
    requires
        state.buffer.wf(),
        state.matches_fresh(),
        command is ArrowLeft || command is ArrowRight || command is ArrowUp || command is ArrowDown
            || command is PageUp || command is PageDown,
    ensures
        state.applied(command).matches_fresh(),
{
    lemma_movements_keep_wf(state.buffer, state.height());
}

/// Enter followed by Backspace gives back the whole session as it was: the
/// lines, the cursor, and with them the view and the search.
pub proof fn lemma_enter_then_backspace_restores(state: EditorState)
    requires
        state.wf(),
    ensures
        state.applied(Command::Enter).applied(Command::Backspace) == state,
{
    lemma_split_then_delete_restores(state.buffer);
}

/// While a search is being typed no key changes the text: every `char` goes
/// to the query, and the keys that edit or move do nothing.
pub proof fn lemma_search_mode_keeps_text(state: EditorState, key: KeyPress)
    requires
        state.search_mode,
    ensures
        state.after_key(key).buffer.lines == state.buffer.lines,
{
}

/// Jumping to a match keeps the session well-formed, whether or not the
/// match is still where the text has it.
pub proof fn lemma_jumped_is_wf(state: EditorState, index: int)
    requires
        state.wf(),
    ensures
        state.jumped(index).wf(),
        0 <= index < state.search_matches.len() ==> state.stepped_to(index).wf(),
{
}

/// The place that a fresh match names lies in the buffer, so that a jump to
/// it moves the cursor.
pub proof fn lemma_fresh_matches_can_be_jumped_to(state: EditorState, index: int)
    requires
        state.fits(),
        state.matches_fresh(),
        0 <= index < state.search_matches.len(),
    ensures
        state.can_jump(index),
        state.jumped(index).buffer.row == state.search_matches[index].line,
        state.jumped(index).buffer.col == state.search_matches[index].start,
        state.jumped(index).current_match == index,
{
    lemma_matches_lie_in_buffer(
        state.buffer.lines,
        state.search_query,
        state.buffer.lines.len() as int,
        index,
    );
}

/// A new search keeps the session well-formed and makes the matches fresh.
pub proof fn lemma_searched_is_wf(state: EditorState)
    requires
        state.buffer.wf(),
        0 <= state.scroll_offset,
    ensures
        state.searched().wf(),
        state.searched().matches_fresh(),
        state.searched().current_match == 0,
{
}

/// After a search in a buffer that fits the machine the cursor stands on
/// the first match, where there is one, and stays where it was, where there
/// is none.
pub proof fn lemma_searched_goes_to_first_match(state: EditorState)
    requires
        state.fits(),
    ensures
        state.searched().search_matches.len() > 0 ==> state.searched().buffer.row
            == state.searched().search_matches[0].line && state.searched().buffer.col
            == state.searched().search_matches[0].start,
        state.searched().search_matches.len() == 0 ==> state.searched().buffer == state.buffer,
{
    let found = EditorState {
        search_matches: buffer_matches(state.buffer.lines, state.search_query),
        current_match: 0,
        ..state
    };
    if found.search_matches.len() > 0 {
        lemma_fresh_matches_can_be_jumped_to(found, 0);
    }
}

/// Going to the next match `times` times moves the current match `times`
/// places on around the cycle, and leaves the text, the query and the matches
/// as they are.
pub proof fn lemma_next_match_times(state: EditorState, times: nat)
    requires
        state.wf(),
        state.search_matches.len() > 0,
    ensures
        state.next_match_times(times).search_matches == state.search_matches,
        state.next_match_times(times).search_query == state.search_query,
        state.next_match_times(times).buffer.lines == state.buffer.lines,
        state.next_match_times(times).current_match == (state.current_match + times) % (
        state.search_matches.len() as int),
    decreases times,
{
    let count = state.search_matches.len() as int;
    if times == 0 {
        assert(state.current_match % count == state.current_match) by (nonlinear_arith)
            requires
                0 <= state.current_match < count,
        ;
    } else {
        lemma_next_match_times(state, (times - 1) as nat);
        let before = state.next_match_times((times - 1) as nat);
        let current = before.current_match;
        let start = state.current_match;
        let steps = times as int;
        lemma_mod_bound(start + (steps - 1), count);
        lemma_add_mod_noop_right(1, start + (steps - 1), count);
        assert(1 + (start + (steps - 1)) == start + steps);
        assert((current + 1) % count == (start + steps) % count);
        lemma_mod_bound(current + 1, count);
    }
}

/// For any non-empty set of matches, going to the next match as many times
/// as there are matches makes the match current that was current before.
pub proof fn lemma_next_match_cycles(state: EditorState)
    requires
        state.wf(),
        state.search_matches.len() > 0,
    ensures
        state.next_match_times(state.search_matches.len()).current_match == state.current_match,
        state.next_match_times(state.search_matches.len()).search_matches == state.search_matches,
{
    let count = state.search_matches.len() as int;
    lemma_next_match_times(state, state.search_matches.len());
    assert((state.current_match + count) % count == state.current_match) by (nonlinear_arith)
        requires
            0 <= state.current_match < count,
    ;
}

/// Scrolling to the cursor never gives a negative offset. With a view of at
/// least one row it leaves the cursor's row visible. Where the text is longer
/// than the view, and the offset or the cursor's row was within the last
/// full screen before, the offset does not pass the start of the last full
/// screen.
pub proof fn lemma_scroll_target_bounds(row: int, scroll_offset: int, height: int, line_count: int)
    requires
        0 <= row < line_count,
        0 <= scroll_offset,
        0 <= height,
    ensures
        0 <= scroll_target(row, scroll_offset, height),
        scroll_target(row, scroll_offset, height) <= row + 1,
        height > 0 ==> scroll_target(row, scroll_offset, height) <= row < scroll_target(
            row,
            scroll_offset,
            height,
        ) + height,
        line_count > height && (scroll_offset <= line_count - height || row <= line_count - height)
            ==> scroll_target(row, scroll_offset, height) <= line_count - height,
        scroll_offset <= scroll_limit(line_count, height) ==> scroll_target(
            row,
            scroll_offset,
            height,
        ) <= scroll_limit(line_count, height),
{
}

/// Paging keeps the scroll offset between zero and the start of the last
/// full screen.
pub proof fn lemma_paging_bounds(state: EditorState)
    requires
        state.wf(),
    ensures
        0 <= state.paged_up().scroll_offset <= scroll_limit(
            state.buffer.lines.len() as int,
            state.height(),
        ),
        0 <= state.paged_down().scroll_offset <= scroll_limit(
            state.buffer.lines.len() as int,
            state.height(),
        ),
        state.paged_up().wf(),
        state.paged_down().wf(),
{
}

} // verus!
