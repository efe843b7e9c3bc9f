//! Conversions between strings and sequences of `char`s, lower-casing, and
//! the splitting and joining of lines.

use vstd::prelude::*;

verus! {

/// The lower-case form of a text, as `str::to_lowercase` computes it.
pub uninterp spec fn lowercase(text: Seq<char>) -> Seq<char>;

/// `str::to_lowercase` of the standard library: the lower-case equivalent of
/// a string slice as Unicode defines it, without regard to any locale. This
/// is taken on trust, not proved. Nothing is claimed of the result but that it
/// is a function of the slice's `char`s, which `lowercase` names.
pub assume_specification[ str::to_lowercase ](text: &str) -> (lower: String)
    ensures
        lower@ == lowercase(text@),
;

/// `String::push` of the standard library: appends one `char` to the end of
/// the string. This is taken on trust, not proved.
pub assume_specification[ String::push ](text: &mut String, ch: char)
    ensures
        final(text)@ == old(text)@.push(ch),
;

/// The `char`s of a string slice, in order.
pub fn chars_of(text: &str) -> (chars: Vec<char>)
    ensures
        chars@ == text@,
{
    broadcast use vstd::string::group_string_axioms;

    let mut chars: Vec<char> = Vec::new();
    for ch in iter: text.chars()
        invariant
            iter.seq() == text@,
            chars@ == text@.subrange(0, iter.index()),
    {
        proof {
            assert(text@.subrange(0, iter.index()).push(ch) =~= text@.subrange(
                0,
                iter.index() + 1,
            ));
        }
        chars.push(ch);
    }
    proof {
        assert(text@.subrange(0, text@.len() as int) =~= text@);
    }
    chars
}

/// The string made of the given `char`s, in order.
pub fn string_of(chars: &[char]) -> (text: String)
    ensures
        text@ == chars@,
{
    let mut text = String::new();
    let mut i: usize = 0;
    while i < chars.len()
        invariant
            i <= chars.len(),
            text@ == chars@.subrange(0, i as int),
        decreases chars.len() - i,
    {
        proof {
            assert(chars@.subrange(0, i as int).push(chars@[i as int]) =~= chars@.subrange(
                0,
                i + 1,
            ));
        }
        text.push(chars[i]);
        i += 1;
    }
    proof {
        assert(chars@.subrange(0, chars@.len() as int) =~= chars@);
    }
    text
}

/// The lines held by a vector of `char` vectors, each as a sequence.
pub open spec fn views(lines: Seq<Vec<char>>) -> Seq<Seq<char>> {
    Seq::new(lines.len(), |i: int| lines[i]@)
}

/// The index of the first line feed in `text` at or after `from`, or the
/// length of `text` where there is none.
pub open spec fn line_end(text: Seq<char>, from: int) -> int
    decreases text.len() - from,
{
    if from < 0 || from >= text.len() {
        text.len() as int
    } else if text[from] == '\n' {
        from
    } else {
        line_end(text, from + 1)
    }
}

/// A line without the carriage return that may end it.
pub open spec fn without_carriage_return(line: Seq<char>) -> Seq<char> {
    if line.len() > 0 && line.last() == '\r' {
        line.drop_last()
    } else {
        line
    }
}

/// The lines of `text` from index `from` on. A line ends at a line feed, or
/// at a carriage return directly followed by a line feed; the terminator is
/// not part of the line. The last line needs no terminator, and a terminator
/// at the very end of the text starts no further line.
pub open spec fn lines_from(text: Seq<char>, from: int) -> Seq<Seq<char>>
    decreases text.len() - from,
{
    if from < 0 || from >= text.len() {
        Seq::empty()
    } else {
        let end = line_end(text, from);
        if end < from {
            Seq::empty()
        } else if end < text.len() {
            seq![without_carriage_return(text.subrange(from, end))] + lines_from(text, end + 1)
        } else {
            seq![text.subrange(from, end)]
        }
    }
}

/// The lines of `text`. An empty text has no lines.
pub open spec fn lines_of(text: Seq<char>) -> Seq<Seq<char>> {
    lines_from(text, 0)
}

/// The lines joined by single line feeds, with none after the last line.
pub open spec fn joined(lines: Seq<Seq<char>>) -> Seq<char>
    decreases lines.len(),
{
    if lines.len() == 0 {
        Seq::empty()
    } else if lines.len() == 1 {
        lines[0]
    } else {
        joined(lines.drop_last()) + seq!['\n'] + lines.last()
    }
}

/// The first line feed at or after `from` is not before `from`, not past the
/// end, and nothing between `from` and it is a line feed.
pub proof fn lemma_line_end(text: Seq<char>, from: int)
    requires
        0 <= from <= text.len(),
    ensures
        from <= line_end(text, from) <= text.len(),
        line_end(text, from) < text.len() ==> text[line_end(text, from)] == '\n',
        forall|i: int| from <= i < line_end(text, from) ==> text[i] != '\n',
    decreases text.len() - from,
{
    if from < text.len() && text[from] != '\n' {
        lemma_line_end(text, from + 1);
    }
}

/// Splits a text into its lines.
pub fn split_lines(text: &[char]) -> (lines: Vec<Vec<char>>)
    ensures
        views(lines@) == lines_of(text@),
{
    let mut lines: Vec<Vec<char>> = Vec::new();
    let mut start: usize = 0;
    while start < text.len()
        invariant
            start <= text.len(),
            lines_of(text@) == views(lines@) + lines_from(text@, start as int),
        decreases text.len() - start,
    {
        let mut line: Vec<char> = Vec::new();
        let mut end: usize = start;
        while end < text.len() && text[end] != '\n'
            invariant
                start <= end <= text.len(),
                line@ == text@.subrange(start as int, end as int),
                line_end(text@, start as int) == line_end(text@, end as int),
            decreases text.len() - end,
        {
            proof {
                assert(text@.subrange(start as int, end as int).push(text@[end as int])
                    =~= text@.subrange(start as int, end + 1));
            }
            line.push(text[end]);
            end += 1;
        }
        let ghost before = views(lines@);
        let ghost raw = line@;
        if end < text.len() {
            if line.len() > 0 && line[line.len() - 1] == '\r' {
                line.pop();
            }
            proof {
                assert(line@ =~= without_carriage_return(raw));
                assert(lines_from(text@, start as int) == seq![line@] + lines_from(
                    text@,
                    end + 1,
                ));
            }
            lines.push(line);
            proof {
                assert(views(lines@) =~= before.push(without_carriage_return(raw)));
                assert(before + (seq![without_carriage_return(raw)] + lines_from(text@, end + 1))
                    =~= before.push(without_carriage_return(raw)) + lines_from(text@, end + 1));
            }
            start = end + 1;
        } else {
            proof {
                assert(lines_from(text@, start as int) == seq![raw]);
            }
            lines.push(line);
            proof {
                assert(views(lines@) =~= before.push(raw));
                assert(before + seq![raw] =~= before.push(raw) + lines_from(text@, end as int));
            }
            start = end;
        }
    }
    proof {
        assert(views(lines@) + Seq::<Seq<char>>::empty() =~= views(lines@));
    }
    lines
}

/// Joins lines with single line feeds.
pub fn join_lines(lines: &Vec<Vec<char>>) -> (text: String)
    ensures
        text@ == joined(views(lines@)),
{
    let mut text = String::new();
    let mut i: usize = 0;
    while i < lines.len()
        invariant
            i <= lines.len(),
            text@ == joined(views(lines@).subrange(0, i as int)),
        decreases lines.len() - i,
    {
        let ghost head = views(lines@).subrange(0, i as int);
        let ghost next = views(lines@).subrange(0, i + 1);
        proof {
            assert(next.drop_last() =~= head);
            assert(next.last() == lines@[i as int]@);
        }
        if i > 0 {
            text.push('\n');
        }
        let line = &lines[i];
        let mut j: usize = 0;
        while j < line.len()
            invariant
                j <= line.len(),
                text@ == (if i > 0 {
                    joined(head) + seq!['\n']
                } else {
                    Seq::<char>::empty()
                }) + line@.subrange(0, j as int),
            decreases line.len() - j,
        {
            proof {
                assert(line@.subrange(0, j as int).push(line@[j as int]) =~= line@.subrange(
                    0,
                    j + 1,
                ));
            }
            text.push(line[j]);
            j += 1;
        }
        proof {
            assert(line@.subrange(0, line@.len() as int) =~= line@);
            assert(text@ =~= joined(next));
        }
        i += 1;
    }
    proof {
        assert(views(lines@).subrange(0, lines@.len() as int) =~= views(lines@));
    }
    text
}

} // verus!
