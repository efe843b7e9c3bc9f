//! The editing session of the terminal editor: one owned object that every
//! command changes, and that the drawing code reads.

use vstd::prelude::*;
use vstd::string::StringExecFns;
use crate::buffer::{Buffer, CursorPosition};
use crate::frame::{
    line_segments, line_views, Frame, Mark, SearchInfo, SearchPrompt, Segment, StatusSummary,
};
use crate::keys::{
    decode_normal_key, decode_search_key, normal_command, search_command, Command, Effect, KeyPress,
};
use crate::state::{
    effect_of, find_in_lines, lemma_empty_query_matches_nothing,
    lemma_fresh_matches_can_be_jumped_to, lemma_searched_goes_to_first_match, marks_among,
    scroll_limit, string_views, EditorState, Match,
};
use crate::text::{chars_of, join_lines, joined, lines_of, split_lines, string_of, views};

verus! {

/// An editing session.
///
/// The matches of a search are those of the text as it stood when the search
/// ran. An edit leaves them as they are, and only the next search makes them
/// fresh again; until then a match that the text has changed under is neither
/// jumped to nor drawn where the place it names is no longer in the buffer.
pub struct Editor {
    content: Vec<Vec<char>>,
    cursor_position: CursorPosition,
    should_quit: bool,
    filename: Option<String>,
    status_message: String,
    scroll_offset: usize,
    terminal_size: (u16, u16),
    search_mode: bool,
    search_query: Vec<char>,
    search_matches: Vec<Match>,
    current_match: usize,
}

impl View for Editor {
    type V = EditorState;

    closed spec fn view(&self) -> EditorState {
        EditorState {
            buffer: Buffer {
                lines: views(self.content@),
                row: self.cursor_position.y as int,
                col: self.cursor_position.x as int,
            },
            scroll_offset: self.scroll_offset as int,
            terminal_size: self.terminal_size,
            should_quit: self.should_quit,
            filename: match self.filename {
                Some(name) => Some(name@),
                None => None,
            },
            status_message: self.status_message@,
            search_mode: self.search_mode,
            search_query: self.search_query@,
            search_matches: self.search_matches@,
            current_match: self.current_match as int,
        }
    }
}

impl Editor {
    /// A session with one empty line, for a terminal of the given size, or of
    /// 80 columns and 24 rows where the size is not known.
    pub fn new(size: Option<(u16, u16)>) -> (editor: Editor)
        ensures
            editor@ == EditorState::initial(size),
            editor@.wf(),
    {
        let terminal_size = match size {
            Some(size) => size,
            None => (80, 24),
        };
        let mut content: Vec<Vec<char>> = Vec::new();
        content.push(Vec::new());
        let editor = Editor {
            content,
            cursor_position: CursorPosition { x: 0, y: 0 },
            should_quit: false,
            filename: None,
            status_message: String::from_str("Help: Ctrl-Q = quit, Ctrl-S = save, Ctrl-F = search"),
            scroll_offset: 0,
            terminal_size,
            search_mode: false,
            search_query: Vec::new(),
            search_matches: Vec::new(),
            current_match: 0,
        };
        proof {
            assert(views(editor.content@) =~= seq![Seq::<char>::empty()]);
            assert(editor@.search_query =~= Seq::<char>::empty());
            assert(editor@.search_matches =~= Seq::<Match>::empty());
        }
        editor
    }

    /// Types `c` at the cursor and moves the cursor past it. The view and the
    /// search, its matches among it, stay as they were.
    pub fn insert_char(&mut self, c: char)
        requires
            old(self)@.wf(),
        ensures
            final(self)@ == (EditorState {
                buffer: old(self)@.buffer.insert_char(c),
                ..old(self)@
            }),
            final(self)@.wf(),
    {
        let x = self.cursor_position.x;
        let y = self.cursor_position.y;
        self.content[y].insert(x, c);
        assert(self.content@[y as int].len() == old(self).content@[y as int]@.len() + 1);
        self.cursor_position.x = x + 1;
        proof {
            assert(views(self.content@) =~= old(self)@.buffer.insert_char(c).lines);
        }
    }

    /// Deletes the `char` before the cursor; at the start of a line, joins
    /// the line onto the one above; at the start of the text, does nothing.
    /// The view and the search, its matches among it, stay as they were.
    pub fn delete_char(&mut self)
        requires
            old(self)@.wf(),
        ensures
            final(self)@ == (EditorState {
                buffer: old(self)@.buffer.delete_char(),
                ..old(self)@
            }),
            final(self)@.wf(),
    {
        let x = self.cursor_position.x;
        let y = self.cursor_position.y;
        if x > 0 {
            self.content[y].remove(x - 1);
            self.cursor_position.x = x - 1;
            proof {
                assert(views(self.content@) =~= old(self)@.buffer.delete_char().lines);
            }
        } else if y > 0 {
            let mut current_line = self.content.remove(y);
            let above = self.content[y - 1].len();
            self.content[y - 1].append(&mut current_line);
            self.cursor_position.y = y - 1;
            self.cursor_position.x = above;
            proof {
                assert(views(self.content@) =~= old(self)@.buffer.delete_char().lines);
            }
        }
    }

    /// Splits the cursor's line at the cursor and moves the cursor to the
    /// start of the new line below. The view and the search, its matches
    /// among it, stay as they were.
    pub fn insert_newline(&mut self)
        requires
            old(self)@.wf(),
        ensures
            final(self)@ == (EditorState {
                buffer: old(self)@.buffer.split_line(),
                ..old(self)@
            }),
            final(self)@.wf(),
    {
        let x = self.cursor_position.x;
        let y = self.cursor_position.y;
        assert(y < self.content.len());
        let below = y + 1;
        let new_line = self.content[y].split_off(x);
        self.content.insert(below, new_line);
        assert(self.content@.len() == old(self).content@.len() + 1);
        assert(self.content.len() == self.content@.len());
        self.cursor_position.y = below;
        self.cursor_position.x = 0;
        proof {
            assert(views(self.content@) =~= old(self)@.buffer.split_line().lines);
        }
    }

    /// Moves the cursor one column to the left, or to the end of the line
    /// above.
    pub fn move_cursor_left(&mut self)
        requires
            old(self)@.wf(),
        ensures
            final(self)@ == old(self)@.with_buffer(old(self)@.buffer.move_left()),
            final(self)@.wf(),
    {
        if self.cursor_position.x > 0 {
            self.cursor_position.x -= 1;
        } else if self.cursor_position.y > 0 {
            self.cursor_position.y -= 1;
            self.cursor_position.x = self.content[self.cursor_position.y].len();
        }
    }

    /// Moves the cursor one column to the right, or to the start of the line
    /// below.
    pub fn move_cursor_right(&mut self)
        requires
            old(self)@.wf(),
        ensures
            final(self)@ == old(self)@.with_buffer(old(self)@.buffer.move_right()),
            final(self)@.wf(),
    {
        let current_line_len = self.content[self.cursor_position.y].len();
        if self.cursor_position.x < current_line_len {
            self.cursor_position.x += 1;
        } else if self.cursor_position.y < self.content.len() - 1 {
            self.cursor_position.y += 1;
            self.cursor_position.x = 0;
        }
    }

    /// Puts the cursor on the given row, its column held to that line.
    fn move_to_row(&mut self, row: usize)
        requires
            old(self)@.wf(),
            row < old(self)@.buffer.lines.len(),
        ensures
            final(self)@ == old(self)@.with_buffer(old(self)@.buffer.on_row(row as int)),
            final(self)@.wf(),
    {
        self.cursor_position.y = row;
        let current_line_len = self.content[row].len();
        if self.cursor_position.x > current_line_len {
            self.cursor_position.x = current_line_len;
        }
    }

    /// Moves the cursor one line up, keeping its column where the line is
    /// long enough.
    pub fn move_cursor_up(&mut self)
        requires
            old(self)@.wf(),
        ensures
            final(self)@ == old(self)@.with_buffer(old(self)@.buffer.move_up()),
            final(self)@.wf(),
    {
        if self.cursor_position.y > 0 {
            self.move_to_row(self.cursor_position.y - 1);
        }
    }

    /// Moves the cursor one line down, keeping its column where the line is
    /// long enough.
    pub fn move_cursor_down(&mut self)
        requires
            old(self)@.wf(),
        ensures
            final(self)@ == old(self)@.with_buffer(old(self)@.buffer.move_down()),
            final(self)@.wf(),
    {
        if self.cursor_position.y < self.content.len() - 1 {
            self.move_to_row(self.cursor_position.y + 1);
        }
    }

    /// Takes over the terminal's size where it is known.
    pub fn update_terminal_size(&mut self, size: Option<(u16, u16)>)
        ensures
            final(self)@ == old(self)@.resized(size),
            old(self)@.wf() ==> final(self)@.wf(),
    {
        if let Some(size) = size {
            self.terminal_size = size;
        }
    }

    /// The number of text rows on the screen: the terminal's rows but two.
    pub fn visible_height(&self) -> (rows: usize)
        ensures
            rows == self@.height(),
    {
        if self.terminal_size.1 >= 2 {
            (self.terminal_size.1 - 2) as usize
        } else {
            0
        }
    }

    /// Scrolls the view so that it shows the cursor's row.
    pub fn update_scroll(&mut self)
        requires
            old(self)@.wf(),
        ensures
            final(self)@ == old(self)@.scrolled(),
            final(self)@.wf(),
            final(self)@.scroll_offset <= final(self)@.buffer.row + 1,
            final(self)@.height() > 0 ==> final(self)@.scroll_offset <= final(self)@.buffer.row
                < final(self)@.scroll_offset + final(self)@.height(),
            old(self)@.scroll_offset <= scroll_limit(
                old(self)@.buffer.lines.len() as int,
                old(self)@.height(),
            ) ==> final(self)@.scroll_offset <= scroll_limit(
                old(self)@.buffer.lines.len() as int,
                old(self)@.height(),
            ),
    {
        let visible_lines = self.visible_height();
        let row = self.cursor_position.y;
        assert(row < self.content.len());
        if row >= self.scroll_offset && row - self.scroll_offset >= visible_lines {
            self.scroll_offset = row - visible_lines + 1;
        } else if row < self.scroll_offset {
            self.scroll_offset = row;
        }
    }

    /// The largest scroll offset that paging reaches.
    fn page_limit(&self) -> (limit: usize)
        ensures
            limit == scroll_limit(self@.buffer.lines.len() as int, self@.height()),
    {
        let visible_lines = self.visible_height();
        if self.content.len() > visible_lines {
            self.content.len() - visible_lines
        } else {
            0
        }
    }

    /// Moves the view and the cursor up by one screen: the view not above the
    /// first line, the cursor not above the first line, its column held to
    /// the line it arrives on.
    pub fn scroll_page_up(&mut self)
        requires
            old(self)@.wf(),
        ensures
            final(self)@ == old(self)@.paged_up(),
            final(self)@.wf(),
    {
        let visible_lines = self.visible_height();
        let limit = self.page_limit();
        let shifted = if self.scroll_offset >= visible_lines {
            self.scroll_offset - visible_lines
        } else {
            0
        };
        self.scroll_offset = if shifted > limit {
            limit
        } else {
            shifted
        };
        let row = if self.cursor_position.y >= visible_lines {
            self.cursor_position.y - visible_lines
        } else {
            0
        };
        self.move_to_row(row);
    }

    /// Moves the view and the cursor down by one screen: the view not past
    /// the last full screen, the cursor not below the last line, its column
    /// held to the line it arrives on.
    pub fn scroll_page_down(&mut self)
        requires
            old(self)@.wf(),
        ensures
            final(self)@ == old(self)@.paged_down(),
            final(self)@.wf(),
    {
        let visible_lines = self.visible_height();
        let limit = self.page_limit();
        self.scroll_offset = if self.scroll_offset >= limit || visible_lines >= limit
            - self.scroll_offset {
            limit
        } else {
            self.scroll_offset + visible_lines
        };
        let last = self.content.len() - 1;
        let row = if visible_lines >= last - self.cursor_position.y {
            last
        } else {
            self.cursor_position.y + visible_lines
        };
        self.move_to_row(row);
    }

    /// Enters search mode with an empty query and no matches.
    pub fn enter_search_mode(&mut self)
        requires
            old(self)@.wf(),
        ensures
            final(self)@ == old(self)@.search_entered(),
            final(self)@.wf(),
    {
        self.search_mode = true;
        self.search_query.clear();
        self.search_matches.clear();
        self.current_match = 0;
        self.status_message = String::from_str("Search mode: Type to search, Enter to exit");
    }

    /// Leaves search mode and drops the query and the matches.
    pub fn exit_search_mode(&mut self)
        requires
            old(self)@.wf(),
        ensures
            final(self)@ == old(self)@.search_exited(),
            final(self)@.wf(),
    {
        self.search_mode = false;
        self.search_query.clear();
        self.search_matches.clear();
        self.current_match = 0;
        self.status_message = String::from_str(
            "Help: Ctrl-Q = quit, Ctrl-S = save, Ctrl-F = search",
        );
    }

    /// Puts the cursor on the match with the given index, makes that match
    /// current, and returns where the cursor now stands. An index that names
    /// no match changes nothing and returns `None`; so does a match that the
    /// text has changed under, so that the place it names is no longer in the
    /// buffer.
    pub fn jump_to_match(&mut self, match_index: usize) -> (target: Option<CursorPosition>)
        requires
            old(self)@.wf(),
        ensures
            final(self)@ == old(self)@.jumped(match_index as int),
            final(self)@.wf(),
            old(self)@.can_jump(match_index as int) ==> target == Some(
                CursorPosition {
                    x: old(self)@.search_matches[match_index as int].start,
                    y: old(self)@.search_matches[match_index as int].line,
                },
            ),
            !old(self)@.can_jump(match_index as int) ==> target.is_none(),
            old(self)@.matches_fresh() && match_index < old(self)@.search_matches.len()
                ==> old(self)@.can_jump(match_index as int),
    {
        proof {
            if self@.matches_fresh() && match_index < self@.search_matches.len() {
                self.lemma_fits();
                lemma_fresh_matches_can_be_jumped_to(self@, match_index as int);
            }
        }
        if match_index < self.search_matches.len() {
            let found = self.search_matches[match_index];
            if found.line < self.content.len() && found.start <= self.content[found.line].len() {
                proof {
                    assert(views(self.content@)[found.line as int] == self.content@[found.line
                        as int]@);
                }
                self.cursor_position.y = found.line;
                self.cursor_position.x = found.start;
                self.current_match = match_index;
                return Some(CursorPosition { x: found.start, y: found.line });
            }
            proof {
                if found.line < self.content.len() {
                    assert(views(self.content@)[found.line as int] == self.content@[found.line
                        as int]@);
                }
            }
        }
        None
    }

    /// Rebuilds the matches of the query from the buffer, line by line, and
    /// puts the cursor on the first of them. An empty query has no matches.
    pub fn perform_search(&mut self)
        requires
            old(self)@.wf(),
        ensures
            final(self)@ == old(self)@.searched(),
            final(self)@.wf(),
            final(self)@.matches_fresh(),
            final(self)@.current_match == 0,
            final(self)@.search_matches.len() > 0 ==> final(self)@.buffer.row
                == final(self)@.search_matches[0].line && final(self)@.buffer.col
                == final(self)@.search_matches[0].start,
            final(self)@.search_matches.len() == 0 ==> final(self)@.buffer == old(self)@.buffer,
            old(self)@.search_query.len() == 0 ==> final(self)@.search_matches.len() == 0,
    {
        proof {
            self.lemma_fits();
            lemma_searched_goes_to_first_match(self@);
        }
        self.search_matches = find_in_lines(&self.content, self.search_query.as_slice());
        self.current_match = 0;
        proof {
            if self.search_query@.len() == 0 {
                lemma_empty_query_matches_nothing(
                    views(self.content@),
                    self.search_query@,
                    self.content@.len() as int,
                );
            }
        }
        if self.search_matches.len() > 0 {
            self.jump_to_match(0);
        }
    }

    /// Makes the next match current, or the first after the last, and puts
    /// the cursor on it. Where the text has changed under the match, so that
    /// the place it names is no longer in the buffer, the cursor stays.
    pub fn find_next_match(&mut self)
        requires
            old(self)@.wf(),
        ensures
            final(self)@ == old(self)@.next_match(),
            final(self)@.wf(),
    {
        let count = self.search_matches.len();
        if count > 0 {
            let next = if self.current_match + 1 == count {
                0
            } else {
                self.current_match + 1
            };
            assert(next == (self.current_match + 1) % (count as int)) by (nonlinear_arith)
                requires
                    0 <= self.current_match < count,
                    next == if self.current_match + 1 == count {
                        0
                    } else {
                        self.current_match + 1
                    },
            ;
            self.current_match = next;
            self.jump_to_match(next);
        }
    }

    /// Makes the previous match current, or the last before the first, and
    /// puts the cursor on it. Where the text has changed under the match, so
    /// that the place it names is no longer in the buffer, the cursor stays.
    pub fn find_previous_match(&mut self)
        requires
            old(self)@.wf(),
        ensures
            final(self)@ == old(self)@.previous_match(),
            final(self)@.wf(),
    {
        let count = self.search_matches.len();
        if count > 0 {
            let previous = if self.current_match == 0 {
                count - 1
            } else {
                self.current_match - 1
            };
            self.current_match = previous;
            self.jump_to_match(previous);
        }
    }

    /// Adds `c` to the end of the query and searches anew.
    pub fn search_input(&mut self, c: char)
        requires
            old(self)@.wf(),
        ensures
            final(self)@ == old(self)@.with_query(old(self)@.search_query.push(c)),
            final(self)@.wf(),
            final(self)@.matches_fresh(),
    {
        self.search_query.push(c);
        self.perform_search();
    }

    /// Removes the last `char` of the query and searches anew. An empty query
    /// stays as it is, and so does everything else.
    pub fn search_backspace(&mut self)
        requires
            old(self)@.wf(),
        ensures
            final(self)@ == if old(self)@.search_query.len() > 0 {
                old(self)@.with_query(old(self)@.search_query.drop_last())
            } else {
                old(self)@
            },
            final(self)@.wf(),
            old(self)@.search_query.len() > 0 ==> final(self)@.matches_fresh(),
    {
        if self.search_query.len() > 0 {
            self.search_query.pop();
            assert(self.search_query@ =~= old(self)@.search_query.drop_last());
            self.perform_search();
        }
    }

    /// Carries out one command and says what is left to the caller to do.
    pub fn apply(&mut self, command: Command) -> (effect: Effect)
        requires
            old(self)@.wf(),
        ensures
            final(self)@ == old(self)@.applied(command),
            final(self)@.wf(),
            effect == effect_of(Some(command)),
    {
        match command {
            Command::InsertChar(c) => self.insert_char(c),
            Command::Backspace => self.delete_char(),
            Command::Enter => self.insert_newline(),
            Command::ArrowLeft => self.move_cursor_left(),
            Command::ArrowRight => self.move_cursor_right(),
            Command::ArrowUp => self.move_cursor_up(),
            Command::ArrowDown => self.move_cursor_down(),
            Command::PageUp => self.scroll_page_up(),
            Command::PageDown => self.scroll_page_down(),
            Command::ToggleSearch => {
                if self.search_mode {
                    self.exit_search_mode()
                } else {
                    self.enter_search_mode()
                }
            },
            Command::SearchInput(c) => self.search_input(c),
            Command::SearchBackspace => self.search_backspace(),
            Command::SearchNext => self.find_next_match(),
            Command::SearchPrevious => self.find_previous_match(),
            Command::ExitSearch => self.exit_search_mode(),
            Command::Save => {
                return Effect::Save;
            },
            Command::Quit => {
                self.should_quit = true;
            },
        }
        Effect::Done
    }

    /// Serves a key press outside search mode.
    pub fn process_normal_keypress(&mut self, key: KeyPress) -> (effect: Effect)
        requires
            old(self)@.wf(),
        ensures
            final(self)@ == match normal_command(key) {
                Some(command) => old(self)@.applied(command),
                None => old(self)@,
            },
            final(self)@.wf(),
            effect == effect_of(normal_command(key)),
    {
        match decode_normal_key(key) {
            Some(command) => self.apply(command),
            None => Effect::Done,
        }
    }

    /// Serves a key press in search mode.
    pub fn process_search_keypress(&mut self, key: KeyPress) -> (effect: Effect)
        requires
            old(self)@.wf(),
        ensures
            final(self)@ == match search_command(key) {
                Some(command) => old(self)@.applied(command),
                None => old(self)@,
            },
            final(self)@.wf(),
            effect == effect_of(search_command(key)),
    {
        match decode_search_key(key) {
            Some(command) => self.apply(command),
            None => Effect::Done,
        }
    }

    /// Serves a key press in the mode the session is in.
    pub fn process_keypress(&mut self, key: KeyPress) -> (effect: Effect)
        requires
            old(self)@.wf(),
        ensures
            final(self)@ == old(self)@.after_key(key),
            final(self)@.wf(),
            effect == effect_of(old(self)@.command_for(key)),
    {
        if self.search_mode {
            self.process_search_keypress(key)
        } else {
            self.process_normal_keypress(key)
        }
    }

    /// Replaces the buffer by the given lines, or by one empty line where
    /// none are given. The cursor and the view go to the top, and the query
    /// and the matches of a search are dropped.
    pub fn replace_buffer(&mut self, lines: Vec<String>)
        ensures
            final(self)@ == old(self)@.with_lines(string_views(lines@)),
            final(self)@.wf(),
            lines@.len() == 0 ==> final(self)@.buffer.lines == seq![Seq::<char>::empty()],
    {
        let mut content: Vec<Vec<char>> = Vec::new();
        let mut i: usize = 0;
        while i < lines.len()
            invariant
                i <= lines.len(),
                views(content@) == string_views(lines@).subrange(0, i as int),
            decreases lines.len() - i,
        {
            let line = chars_of(lines[i].as_str());
            let ghost before = views(content@);
            content.push(line);
            proof {
                assert(views(content@) =~= before.push(lines@[i as int]@));
                assert(string_views(lines@).subrange(0, i + 1) =~= string_views(lines@).subrange(
                    0,
                    i as int,
                ).push(lines@[i as int]@));
            }
            i += 1;
        }
        proof {
            assert(string_views(lines@).subrange(0, lines@.len() as int) =~= string_views(lines@));
        }
        self.install(content);
    }

    /// Puts the given lines in place of the buffer's.
    fn install(&mut self, content: Vec<Vec<char>>)
        ensures
            final(self)@ == old(self)@.with_lines(views(content@)),
            final(self)@.wf(),
            content@.len() == 0 ==> final(self)@.buffer.lines == seq![Seq::<char>::empty()],
    {
        let mut content = content;
        if content.len() == 0 {
            content.push(Vec::new());
            proof {
                assert(views(content@) =~= seq![Seq::<char>::empty()]);
            }
        }
        self.content = content;
        self.cursor_position = CursorPosition { x: 0, y: 0 };
        self.scroll_offset = 0;
        self.search_query.clear();
        self.search_matches.clear();
        self.current_match = 0;
    }

    /// Opens a file whose content has been read: the buffer takes the lines
    /// of `content`, or one empty line where it has none, and the session
    /// takes the file's name.
    pub fn open_file(self, filename: &str, content: &str) -> (editor: Editor)
        ensures
            editor@ == self@.opened(filename@, lines_of(content@)),
            editor@.wf(),
            content@.len() == 0 ==> editor@.buffer.lines == seq![Seq::<char>::empty()],
    {
        let mut editor = self;
        let chars = chars_of(content);
        let lines = split_lines(chars.as_slice());
        editor.install(lines);
        editor.filename = Some(String::from_str(filename));
        let mut message = String::from_str("Opened ");
        message.append(filename);
        editor.status_message = message;
        editor
    }

    /// The text of the buffer: its lines joined by line feeds.
    pub fn to_text(&self) -> (text: String)
        ensures
            text@ == joined(self@.buffer.lines),
    {
        join_lines(&self.content)
    }

    /// Prepares a save: gives the text the name `output.txt` where it has
    /// none, and returns the name of the file to write and the text to write
    /// to it.
    pub fn begin_save(&mut self) -> (request: SaveRequest)
        ensures
            final(self)@ == old(self)@.save_begun(),
            old(self)@.wf() ==> final(self)@.wf(),
            request.filename@ == old(self)@.save_name(),
            request.content@ == joined(old(self)@.buffer.lines),
    {
        let filename = match &self.filename {
            Some(name) => name.clone(),
            None => String::from_str("output.txt"),
        };
        self.filename = Some(filename.clone());
        SaveRequest { filename, content: self.to_text() }
    }

    /// Records that the text has been written: the status line names the
    /// file it went to.
    pub fn finish_save(&mut self)
        ensures
            final(self)@ == old(self)@.save_finished(),
            old(self)@.wf() ==> final(self)@.wf(),
    {
        let filename = match &self.filename {
            Some(name) => name.clone(),
            None => String::from_str("output.txt"),
        };
        let mut message = String::from_str("Saved to ");
        message.append(filename.as_str());
        self.filename = Some(filename);
        self.status_message = message;
    }

    /// The marks that are drawn on a row.
    fn row_marks(&self, row: usize) -> (marks: Vec<Mark>)
        ensures
            marks@ == self@.row_marks(row as int),
    {
        let mut marks: Vec<Mark> = Vec::new();
        if !(self.search_mode && self.search_query.len() > 0) {
            return marks;
        }
        let mut k: usize = 0;
        while k < self.search_matches.len()
            invariant
                k <= self.search_matches.len(),
                marks@ == marks_among(
                    self@.search_matches,
                    row as int,
                    self@.current(),
                    k as int,
                ),
            decreases self.search_matches.len() - k,
        {
            let found = self.search_matches[k];
            if found.line == row {
                let current = self.current_match < self.search_matches.len()
                    && self.search_matches[self.current_match].line == row
                    && self.search_matches[self.current_match].start == found.start;
                marks.push(Mark { start: found.start, end: found.end, current });
            }
            k += 1;
        }
        marks
    }

    /// The lines in view, from the top down, each cut into the segments it
    /// is drawn in. While a search with a query is being typed, the matches
    /// are segments of their own, and so is the current match.
    pub fn visible_lines(&self) -> (lines: Vec<Vec<Segment>>)
        ensures
            line_views(lines@) == self@.visible_lines(),
    {
        let count = self.content.len();
        let height = self.visible_height();
        let first = if self.scroll_offset <= count {
            self.scroll_offset
        } else {
            count
        };
        let end = if height <= count - first && self.scroll_offset <= count {
            first + height
        } else {
            count
        };
        let mut lines: Vec<Vec<Segment>> = Vec::new();
        let mut row: usize = first;
        while row < end
            invariant
                first <= row <= end <= self.content.len(),
                first == self@.first_visible(),
                end == self@.end_visible(),
                line_views(lines@) == self@.visible_lines().subrange(0, row - first),
            decreases end - row,
        {
            let marks = self.row_marks(row);
            let segments = line_segments(self.content[row].as_slice(), marks.as_slice());
            let ghost before = line_views(lines@);
            lines.push(segments);
            proof {
                assert(views(self.content@)[row as int] == self.content@[row as int]@);
                assert(line_views(lines@) =~= before.push(self@.row_segments(row as int)));
                assert(self@.visible_lines().subrange(0, row + 1 - first)
                    =~= self@.visible_lines().subrange(0, row - first).push(
                    self@.row_segments(row as int),
                ));
            }
            row += 1;
        }
        proof {
            assert(self@.visible_lines().subrange(0, end - first) =~= self@.visible_lines());
        }
        lines
    }

    /// The place of the cursor on the screen, or `None` where its row is not
    /// on the screen.
    pub fn cursor_screen_position(&self) -> (position: Option<CursorPosition>)
        ensures
            position == self@.cursor_screen_position(),
    {
        let row = if self.cursor_position.y >= self.scroll_offset {
            self.cursor_position.y - self.scroll_offset
        } else {
            0
        };
        if row < self.visible_height() {
            Some(CursorPosition { x: self.cursor_position.x, y: row })
        } else {
            None
        }
    }

    /// The search line, while a search is being typed.
    pub fn search_prompt(&self) -> (prompt: Option<SearchPrompt>)
        requires
            self@.wf(),
        ensures
            prompt.is_some() == self@.search_mode,
            prompt matches Some(line) ==> line.query@ == self@.search_query && line.info
                == self@.search_info(),
    {
        if !self.search_mode {
            return None;
        }
        let info = if self.search_matches.len() > 0 {
            SearchInfo::Matches {
                count: self.search_matches.len(),
                current: self.current_match + 1,
            }
        } else if self.search_query.len() > 0 {
            SearchInfo::NoMatches
        } else {
            SearchInfo::Blank
        };
        Some(SearchPrompt { query: string_of(self.search_query.as_slice()), info })
    }

    /// The numbers of the status line.
    pub fn status_summary(&self) -> (summary: StatusSummary)
        requires
            self@.wf(),
        ensures
            summary == self@.status_summary(),
    {
        StatusSummary {
            current_line: self.cursor_position.y,
            total_lines: self.content.len(),
            current_column: self.cursor_position.x,
            scroll_offset: self.scroll_offset,
            match_count: self.search_matches.len(),
            current_match_ordinal: if self.search_matches.len() > 0 {
                self.current_match + 1
            } else {
                0
            },
        }
    }

    /// Scrolls the view to the cursor and returns all that is to be drawn.
    pub fn refresh_screen(&mut self) -> (frame: Frame)
        requires
            old(self)@.wf(),
        ensures
            final(self)@ == old(self)@.scrolled(),
            final(self)@.wf(),
            line_views(frame.lines@) == final(self)@.visible_lines(),
            frame.cursor == final(self)@.cursor_screen_position(),
            frame.search.is_some() == final(self)@.search_mode,
            frame.search matches Some(line) ==> line.query@ == final(self)@.search_query
                && line.info == final(self)@.search_info(),
            frame.status == final(self)@.status_summary(),
    {
        self.update_scroll();
        Frame {
            lines: self.visible_lines(),
            cursor: self.cursor_screen_position(),
            search: self.search_prompt(),
            status: self.status_summary(),
        }
    }

    /// The buffer of a session fits the machine, which is what the laws of
    /// the session's model ask of a state before they speak of its matches.
    pub proof fn lemma_fits(&self)
        ensures
            self@.fits(),
    {
        let lines = self@.buffer.lines;
        assert(lines.len() == self.content.len());
        assert forall|i: int| 0 <= i < lines.len() implies (#[trigger] lines[i]).len()
            <= usize::MAX by {
            assert(self.content@[i].len() == lines[i].len());
        }
    }

    /// Where the cursor stands in the buffer.
    pub fn cursor_position(&self) -> (position: CursorPosition)
        ensures
            position.x == self@.buffer.col,
            position.y == self@.buffer.row,
    {
        self.cursor_position
    }

    /// The number of lines in the buffer.
    pub fn line_count(&self) -> (count: usize)
        ensures
            count == self@.buffer.lines.len(),
    {
        self.content.len()
    }

    /// The text of the line on the given row, or `None` where the buffer has
    /// no such row.
    pub fn line(&self, row: usize) -> (text: Option<String>)
        ensures
            row < self@.buffer.lines.len() ==> text.is_some() && text.unwrap()@
                == self@.buffer.lines[row as int],
            row >= self@.buffer.lines.len() ==> text.is_none(),
    {
        if row < self.content.len() {
            Some(string_of(self.content[row].as_slice()))
        } else {
            None
        }
    }

    /// The index of the first line in view.
    pub fn scroll_offset(&self) -> (offset: usize)
        ensures
            offset == self@.scroll_offset,
    {
        self.scroll_offset
    }

    /// The size of the terminal: its columns, then its rows.
    pub fn terminal_size(&self) -> (size: (u16, u16))
        ensures
            size == self@.terminal_size,
    {
        self.terminal_size
    }

    /// Whether the session has been asked to end.
    pub fn should_quit(&self) -> (quit: bool)
        ensures
            quit == self@.should_quit,
    {
        self.should_quit
    }

    /// Whether a search is being typed.
    pub fn is_search_mode(&self) -> (searching: bool)
        ensures
            searching == self@.search_mode,
    {
        self.search_mode
    }

    /// The query of the search.
    pub fn search_query(&self) -> (query: String)
        ensures
            query@ == self@.search_query,
    {
        string_of(self.search_query.as_slice())
    }

    /// The matches of the last search, line by line.
    pub fn search_matches(&self) -> (matches: &[Match])
        ensures
            matches@ == self@.search_matches,
    {
        self.search_matches.as_slice()
    }

    /// The index of the current match.
    pub fn current_match(&self) -> (index: usize)
        ensures
            index == self@.current_match,
    {
        self.current_match
    }

    /// The name of the file being edited, where it has one.
    pub fn filename(&self) -> (name: Option<String>)
        ensures
            name.is_some() == self@.filename.is_some(),
            name matches Some(text) ==> Some(text@) == self@.filename,
    {
        match &self.filename {
            Some(name) => Some(name.clone()),
            None => None,
        }
    }

    /// The message of the status line.
    pub fn status_message(&self) -> (message: String)
        ensures
            message@ == self@.status_message,
    {
        self.status_message.clone()
    }
}

/// The file to write and the text to write to it.
pub struct SaveRequest {
    pub filename: String,
    pub content: String,
}

} // verus!
