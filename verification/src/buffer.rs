//! The mathematical model of the line buffer and its cursor: what each edit
//! and each cursor movement does, and the laws that hold of them.
//!
//! Columns and rows count from zero. A column counts `char`s; it may equal
//! the length of its line, which is the position after the last `char`.

use vstd::prelude::*;

verus! {

/// A cursor position: `x` is the column, `y` the row.
#[derive(Clone, Copy, Debug, PartialEq, Eq, Structural)]
pub struct CursorPosition {
    pub x: usize,
    pub y: usize,
}

impl Default for CursorPosition {
    fn default() -> (position: CursorPosition)
        ensures
            position.x == 0,
            position.y == 0,
    {
        CursorPosition { x: 0, y: 0 }
    }
}

/// The lines of a text and the place of the cursor in them.
pub struct Buffer {
    pub lines: Seq<Seq<char>>,
    pub row: int,
    pub col: int,
}

/// One edit of the buffer at the cursor.
pub enum Edit {
    /// A `char` typed at the cursor.
    Insert(char),
    /// The `char` before the cursor deleted, or two lines joined.
    Delete,
}

/// `value` held to the range from `low` to `high`.
pub open spec fn clamp(value: int, low: int, high: int) -> int {
    if value < low {
        low
    } else if value > high {
        high
    } else {
        value
    }
}

impl Buffer {
    /// There is at least one line, the cursor is on a line, and its column is
    /// not past the end of that line.
    pub open spec fn wf(self) -> bool {
        &&& self.lines.len() >= 1
        &&& 0 <= self.row < self.lines.len()
        &&& 0 <= self.col <= self.lines[self.row].len()
    }

    /// The line the cursor is on.
    pub open spec fn line(self) -> Seq<char> {
        self.lines[self.row]
    }

    /// One empty line, with the cursor at its start.
    pub open spec fn empty() -> Buffer {
        Buffer { lines: seq![Seq::<char>::empty()], row: 0, col: 0 }
    }

    /// The given lines, or one empty line where none are given, with the
    /// cursor at the start of the first.
    pub open spec fn loaded(lines: Seq<Seq<char>>) -> Buffer {
        if lines.len() == 0 {
            Buffer::empty()
        } else {
            Buffer { lines, row: 0, col: 0 }
        }
    }

    /// `ch` inserted at the cursor, and the cursor moved past it.
    pub open spec fn insert_char(self, ch: char) -> Buffer {
        Buffer {
            lines: self.lines.update(self.row, self.line().insert(self.col, ch)),
            row: self.row,
            col: self.col + 1,
        }
    }

    /// The `char` before the cursor removed and the cursor moved back by one;
    /// at the start of a line that is not the first, the line joined onto the
    /// end of the line above and the cursor put where that line ended; at the
    /// start of the first line, nothing.
    pub open spec fn delete_char(self) -> Buffer {
        if self.col > 0 {
            Buffer {
                lines: self.lines.update(self.row, self.line().remove(self.col - 1)),
                row: self.row,
                col: self.col - 1,
            }
        } else if self.row > 0 {
            let above = self.lines[self.row - 1];
            Buffer {
                lines: self.lines.remove(self.row).update(self.row - 1, above + self.line()),
                row: self.row - 1,
                col: above.len() as int,
            }
        } else {
            self
        }
    }

    /// The cursor's line split at the cursor: what stood from the cursor on
    /// becomes a new line directly below, and the cursor moves to its start.
    pub open spec fn split_line(self) -> Buffer {
        Buffer {
            lines: self.lines.update(self.row, self.line().subrange(0, self.col)).insert(
                self.row + 1,
                self.line().subrange(self.col, self.line().len() as int),
            ),
            row: self.row + 1,
            col: 0,
        }
    }

    /// The cursor one column to the left, or at the end of the line above
    /// where it stands at the start of a line; at the start of the first line
    /// it stays.
    pub open spec fn move_left(self) -> Buffer {
        if self.col > 0 {
            Buffer { col: self.col - 1, ..self }
        } else if self.row > 0 {
            Buffer { row: self.row - 1, col: self.lines[self.row - 1].len() as int, ..self }
        } else {
            self
        }
    }

    /// The cursor one column to the right, or at the start of the line below
    /// where it stands at the end of a line; at the end of the last line it
    /// stays.
    pub open spec fn move_right(self) -> Buffer {
        if self.col < self.line().len() {
            Buffer { col: self.col + 1, ..self }
        } else if self.row < self.lines.len() - 1 {
            Buffer { row: self.row + 1, col: 0, ..self }
        } else {
            self
        }
    }

    /// The cursor on the given row, its column held to that line's length.
    pub open spec fn on_row(self, row: int) -> Buffer {
        Buffer {
            row,
            col: if self.col <= self.lines[row].len() {
                self.col
            } else {
                self.lines[row].len() as int
            },
            ..self
        }
    }

    /// The cursor one line up, in the same column where that line is long
    /// enough, else at its end; on the first line it stays.
    pub open spec fn move_up(self) -> Buffer {
        if self.row > 0 {
            self.on_row(self.row - 1)
        } else {
            self
        }
    }

    /// The cursor one line down, in the same column where that line is long
    /// enough, else at its end; on the last line it stays.
    pub open spec fn move_down(self) -> Buffer {
        if self.row < self.lines.len() - 1 {
            self.on_row(self.row + 1)
        } else {
            self
        }
    }

    /// The cursor `rows` lines up, but not above the first line.
    pub open spec fn page_up(self, rows: int) -> Buffer {
        self.on_row(clamp(self.row - rows, 0, self.lines.len() - 1))
    }

    /// The cursor `rows` lines down, but not below the last line.
    pub open spec fn page_down(self, rows: int) -> Buffer {
        self.on_row(clamp(self.row + rows, 0, self.lines.len() - 1))
    }

    /// The cursor put at the given place.
    pub open spec fn at(self, row: int, col: int) -> Buffer {
        Buffer { row, col, ..self }
    }

    /// One edit applied.
    pub open spec fn apply(self, edit: Edit) -> Buffer {
        match edit {
            Edit::Insert(ch) => self.insert_char(ch),
            Edit::Delete => self.delete_char(),
        }
    }

    /// A sequence of edits applied, the first of them first.
    pub open spec fn apply_all(self, edits: Seq<Edit>) -> Buffer
        decreases edits.len(),
    {
        if edits.len() == 0 {
            self
        } else {
            self.apply_all(edits.drop_last()).apply(edits.last())
        }
    }
}

/// Typing a `char` keeps the buffer well-formed.
pub proof fn lemma_insert_char_keeps_wf(buffer: Buffer, ch: char)
    requires
        buffer.wf(),
    ensures
        buffer.insert_char(ch).wf(),
        buffer.insert_char(ch).lines.len() == buffer.lines.len(),
{
}

/// Deleting keeps the buffer well-formed.
pub proof fn lemma_delete_char_keeps_wf(buffer: Buffer)
    requires
        buffer.wf(),
    ensures
        buffer.delete_char().wf(),
{
}

/// Splitting a line keeps the buffer well-formed.
pub proof fn lemma_split_line_keeps_wf(buffer: Buffer)
    requires
        buffer.wf(),
    ensures
        buffer.split_line().wf(),
{
}

/// Every cursor movement keeps the buffer well-formed and its lines as they
/// are.
pub proof fn lemma_movements_keep_wf(buffer: Buffer, rows: int)
    requires
        buffer.wf(),
    ensures
        buffer.move_left().wf() && buffer.move_left().lines == buffer.lines,
        buffer.move_right().wf() && buffer.move_right().lines == buffer.lines,
        buffer.move_up().wf() && buffer.move_up().lines == buffer.lines,
        buffer.move_down().wf() && buffer.move_down().lines == buffer.lines,
        buffer.page_up(rows).wf() && buffer.page_up(rows).lines == buffer.lines,
        buffer.page_down(rows).wf() && buffer.page_down(rows).lines == buffer.lines,
{
}

/// After any sequence of typed `char`s and deletions the buffer still has at
/// least one line and the cursor still lies within it.
pub proof fn lemma_edits_keep_wf(buffer: Buffer, edits: Seq<Edit>)
    requires
        buffer.wf(),
    ensures
        buffer.apply_all(edits).wf(),
        buffer.apply_all(edits).lines.len() >= 1,
    decreases edits.len(),
{
    if edits.len() > 0 {
        lemma_edits_keep_wf(buffer, edits.drop_last());
        let before = buffer.apply_all(edits.drop_last());
        match edits.last() {
            Edit::Insert(ch) => lemma_insert_char_keeps_wf(before, ch),
            Edit::Delete => lemma_delete_char_keeps_wf(before),
        }
    }
}

/// Splitting a line and then deleting at the start of the new line gives
/// back the lines and the cursor as they were.
pub proof fn lemma_split_then_delete_restores(buffer: Buffer)
    requires
        buffer.wf(),
    ensures
        buffer.split_line().delete_char() == buffer,
{
    let split = buffer.split_line();
    let back = split.delete_char();
    let head = buffer.line().subrange(0, buffer.col);
    let tail = buffer.line().subrange(buffer.col, buffer.line().len() as int);
    assert(split.lines[split.row - 1] == head);
    assert(split.line() == tail);
    assert(head + tail =~= buffer.line());
    assert(back.lines =~= buffer.lines);
}

/// Typing a `char` and then deleting gives back the lines and the cursor as
/// they were.
pub proof fn lemma_insert_then_delete_restores(buffer: Buffer, ch: char)
    requires
        buffer.wf(),
    ensures
        buffer.insert_char(ch).delete_char() == buffer,
{
    let typed = buffer.insert_char(ch);
    assert(typed.line().remove(typed.col - 1) =~= buffer.line());
    assert(typed.delete_char().lines =~= buffer.lines);
}

} // verus!
