//! Plain text out of documents: the statistics of a text, the readable part
//! of a text that holds binary data, and the text of a word-processor
//! document given as a tree.

use vstd::prelude::*;
use vstd::string::{StrSliceExecFns, StringExecFns};
use crate::text::{chars_of, lines_of, split_lines, string_of};

verus! {

/// Whether a `char` is white space: one of the 25 code points that have the
/// Unicode property `White_Space`.
pub open spec fn is_whitespace(c: char) -> bool {
    ||| '\u{9}' <= c <= '\u{d}'
    ||| c == ' '
    ||| c == '\u{85}'
    ||| c == '\u{a0}'
    ||| c == '\u{1680}'
    ||| '\u{2000}' <= c <= '\u{200a}'
    ||| c == '\u{2028}'
    ||| c == '\u{2029}'
    ||| c == '\u{202f}'
    ||| c == '\u{205f}'
    ||| c == '\u{3000}'
}

/// Whether a `char` is alphabetic, as `char::is_alphabetic` tells it.
pub uninterp spec fn is_alphabetic(c: char) -> bool;

/// Whether a `char` is numeric, as `char::is_numeric` tells it.
pub uninterp spec fn is_numeric(c: char) -> bool;

/// `char::is_alphabetic` of the standard library: whether the `char` has the
/// Unicode property `Alphabetic`. This is taken on trust, not proved.
/// Nothing is claimed of the result but that it is a function of the `char`,
/// which `is_alphabetic` names.
pub assume_specification[ char::is_alphabetic ](c: char) -> (alphabetic: bool)
    ensures
        alphabetic == is_alphabetic(c),
;

/// `char::is_numeric` of the standard library: whether the `char` is in one
/// of the Unicode general categories for numbers. This is taken on trust,
/// not proved. Nothing is claimed of the result but that it is a function of
/// the `char`, which `is_numeric` names.
pub assume_specification[ char::is_numeric ](c: char) -> (numeric: bool)
    ensures
        numeric == is_numeric(c),
;

/// Whether a `char` is one of the ASCII punctuation marks.
pub open spec fn is_ascii_punctuation(c: char) -> bool {
    ||| '!' <= c <= '/'
    ||| ':' <= c <= '@'
    ||| '[' <= c <= '`'
    ||| '{' <= c <= '~'
}

/// Whether a `char` is kept when the readable part of a text is taken: a
/// letter, a number, white space or an ASCII punctuation mark.
pub open spec fn is_readable(c: char) -> bool {
    is_alphabetic(c) || is_numeric(c) || is_whitespace(c) || is_ascii_punctuation(c)
}

/// For each `char` of a text, whether it is white space.
pub open spec fn whiteness(text: Seq<char>) -> Seq<bool> {
    Seq::new(text.len(), |i: int| is_whitespace(text[i]))
}

/// For each `char` of a text, whether it is readable.
pub open spec fn readability(text: Seq<char>) -> Seq<bool> {
    Seq::new(text.len(), |i: int| is_readable(text[i]))
}

/// The flag at index `at`, or `false` where there is no such flag.
pub open spec fn flag(flags: Seq<bool>, at: int) -> bool {
    0 <= at < flags.len() && flags[at]
}

/// The first `count` `char`s of a text with what is not flagged taken out:
/// every flagged `char` stays, and every run of other `char`s that follows a
/// flagged one becomes a single space.
pub open spec fn kept_upto(text: Seq<char>, readable: Seq<bool>, count: int) -> Seq<char>
    decreases count,
{
    if count <= 0 {
        Seq::empty()
    } else if flag(readable, count - 1) {
        kept_upto(text, readable, count - 1).push(text[count - 1])
    } else if flag(readable, count - 2) {
        kept_upto(text, readable, count - 1).push(' ')
    } else {
        kept_upto(text, readable, count - 1)
    }
}

/// The first `count` `char`s of a text with every run of flagged `char`s
/// made a single space.
pub open spec fn collapsed_upto(text: Seq<char>, white: Seq<bool>, count: int) -> Seq<char>
    decreases count,
{
    if count <= 0 {
        Seq::empty()
    } else if !flag(white, count - 1) {
        collapsed_upto(text, white, count - 1).push(text[count - 1])
    } else if flag(white, count - 2) {
        collapsed_upto(text, white, count - 1)
    } else {
        collapsed_upto(text, white, count - 1).push(' ')
    }
}

/// The first index at or after `from` and before `limit` that is not
/// flagged, or `limit` where there is none.
pub open spec fn content_start(white: Seq<bool>, from: int, limit: int) -> int
    decreases limit - from,
{
    if from >= limit {
        limit
    } else if !flag(white, from) {
        from
    } else {
        content_start(white, from + 1, limit)
    }
}

/// The index after the last one before `upto` that is not flagged, or zero
/// where there is none.
pub open spec fn content_end(white: Seq<bool>, upto: int) -> int
    decreases upto,
{
    if upto <= 0 {
        0
    } else if !flag(white, upto - 1) {
        upto
    } else {
        content_end(white, upto - 1)
    }
}

/// A text without the flagged `char`s at its start and at its end.
pub open spec fn trimmed_by(text: Seq<char>, white: Seq<bool>) -> Seq<char> {
    let start = content_start(white, 0, text.len() as int);
    let end = content_end(white, text.len() as int);
    if start >= end {
        Seq::empty()
    } else {
        text.subrange(start, end)
    }
}

/// A text without the white space at its start and at its end.
pub open spec fn trimmed(text: Seq<char>) -> Seq<char> {
    trimmed_by(text, whiteness(text))
}

/// A text with what is not readable taken out.
pub open spec fn kept(text: Seq<char>) -> Seq<char> {
    kept_upto(text, readability(text), text.len() as int)
}

/// A text with every run of white space made a single space.
pub open spec fn collapsed(text: Seq<char>) -> Seq<char> {
    collapsed_upto(text, whiteness(text), text.len() as int)
}

/// The readable part of a text: what is not readable taken out, runs of
/// white space made single spaces, and the white space at both ends removed.
pub open spec fn readable_text(content: Seq<char>) -> Seq<char> {
    trimmed(collapsed(kept(content)))
}

/// Whether a `char` is white space.
pub fn is_whitespace_char(c: char) -> (white: bool)
    ensures
        white == is_whitespace(c),
{
    ('\u{9}' <= c && c <= '\u{d}') || c == ' ' || c == '\u{85}' || c == '\u{a0}' || c
        == '\u{1680}' || ('\u{2000}' <= c && c <= '\u{200a}') || c == '\u{2028}' || c
        == '\u{2029}' || c == '\u{202f}' || c == '\u{205f}' || c == '\u{3000}'
}

/// Whether a `char` is an ASCII punctuation mark.
pub fn is_ascii_punctuation_char(c: char) -> (punctuation: bool)
    ensures
        punctuation == is_ascii_punctuation(c),
{
    ('!' <= c && c <= '/') || (':' <= c && c <= '@') || ('[' <= c && c <= '`') || ('{' <= c && c
        <= '~')
}

/// Whether a `char` is kept when the readable part of a text is taken.
pub fn is_readable_char(c: char) -> (readable: bool)
    ensures
        readable == is_readable(c),
{
    c.is_alphabetic() || c.is_numeric() || is_whitespace_char(c) || is_ascii_punctuation_char(c)
}

/// For each `char` of a text, whether it is white space.
pub fn white_flags(text: &[char]) -> (flags: Vec<bool>)
    ensures
        flags@ == whiteness(text@),
{
    let mut flags: Vec<bool> = Vec::new();
    let mut i: usize = 0;
    while i < text.len()
        invariant
            i <= text.len(),
            flags@ == whiteness(text@).subrange(0, i as int),
        decreases text.len() - i,
    {
        flags.push(is_whitespace_char(text[i]));
        proof {
            assert(flags@ =~= whiteness(text@).subrange(0, i + 1));
        }
        i += 1;
    }
    proof {
        assert(whiteness(text@).subrange(0, text@.len() as int) =~= whiteness(text@));
    }
    flags
}

/// For each `char` of a text, whether it is readable.
pub fn readable_flags(text: &[char]) -> (flags: Vec<bool>)
    ensures
        flags@ == readability(text@),
{
    let mut flags: Vec<bool> = Vec::new();
    let mut i: usize = 0;
    while i < text.len()
        invariant
            i <= text.len(),
            flags@ == readability(text@).subrange(0, i as int),
        decreases text.len() - i,
    {
        flags.push(is_readable_char(text[i]));
        proof {
            assert(flags@ =~= readability(text@).subrange(0, i + 1));
        }
        i += 1;
    }
    proof {
        assert(readability(text@).subrange(0, text@.len() as int) =~= readability(text@));
    }
    flags
}

/// The flag at index `at`, or `false` where there is no such flag.
pub fn flag_at(flags: &[bool], at: usize) -> (set: bool)
    ensures
        set == flag(flags@, at as int),
{
    at < flags.len() && flags[at]
}

/// Takes out of a text the `char`s that are not flagged as readable, and
/// puts one space for every run of them that follows a readable `char`.
pub fn keep_readable(text: &[char], readable: &[bool]) -> (kept: Vec<char>)
    ensures
        kept@ == kept_upto(text@, readable@, text@.len() as int),
{
    let mut kept: Vec<char> = Vec::new();
    let mut last_char_was_text = false;
    let mut i: usize = 0;
    while i < text.len()
        invariant
            i <= text.len(),
            kept@ == kept_upto(text@, readable@, i as int),
            last_char_was_text == flag(readable@, i - 1),
        decreases text.len() - i,
    {
        if flag_at(readable, i) {
            kept.push(text[i]);
            last_char_was_text = true;
        } else if last_char_was_text {
            kept.push(' ');
            last_char_was_text = false;
        }
        i += 1;
    }
    kept
}

/// Makes every run of `char`s flagged as white space a single space.
pub fn collapse_white(text: &[char], white: &[bool]) -> (collapsed: Vec<char>)
    ensures
        collapsed@ == collapsed_upto(text@, white@, text@.len() as int),
{
    let mut collapsed: Vec<char> = Vec::new();
    let mut last_was_space = false;
    let mut i: usize = 0;
    while i < text.len()
        invariant
            i <= text.len(),
            collapsed@ == collapsed_upto(text@, white@, i as int),
            last_was_space == flag(white@, i - 1),
        decreases text.len() - i,
    {
        if flag_at(white, i) {
            if !last_was_space {
                collapsed.push(' ');
                last_was_space = true;
            }
        } else {
            collapsed.push(text[i]);
            last_was_space = false;
        }
        i += 1;
    }
    collapsed
}

/// Removes the `char`s flagged as white space at the start and at the end
/// of a text.
pub fn trim_by(text: &[char], white: &[bool]) -> (inner: Vec<char>)
    ensures
        inner@ == trimmed_by(text@, white@),
{
    let mut start: usize = 0;
    while start < text.len() && flag_at(white, start)
        invariant
            start <= text.len(),
            content_start(white@, 0, text@.len() as int) == content_start(
                white@,
                start as int,
                text@.len() as int,
            ),
        decreases text.len() - start,
    {
        start += 1;
    }
    let mut end: usize = text.len();
    while end > 0 && flag_at(white, end - 1)
        invariant
            end <= text.len(),
            content_end(white@, text@.len() as int) == content_end(white@, end as int),
        decreases end,
    {
        end -= 1;
    }
    let mut inner: Vec<char> = Vec::new();
    if start >= end {
        return inner;
    }
    let mut i: usize = start;
    while i < end
        invariant
            start <= i <= end <= text.len(),
            inner@ == text@.subrange(start as int, i as int),
        decreases end - i,
    {
        inner.push(text[i]);
        proof {
            assert(text@.subrange(start as int, i as int).push(text@[i as int]) =~= text@.subrange(
                start as int,
                i + 1,
            ));
        }
        i += 1;
    }
    inner
}

/// Removes the white space at the start and at the end of a text.
pub fn trim(text: &[char]) -> (inner: Vec<char>)
    ensures
        inner@ == trimmed(text@),
{
    let white = white_flags(text);
    trim_by(text, white.as_slice())
}

/// The readable part of a text that may hold binary data.
pub fn extract_readable_text(content: &str) -> (text: String)
    ensures
        text@ == readable_text(content@),
{
    let source = chars_of(content);
    let readable = readable_flags(source.as_slice());
    let kept = keep_readable(source.as_slice(), readable.as_slice());
    let white = white_flags(kept.as_slice());
    let cleaned = collapse_white(kept.as_slice(), white.as_slice());
    let inner = trim(cleaned.as_slice());
    string_of(inner.as_slice())
}

/// The kind of a file, by which it is read.
#[derive(Clone, Copy, Debug, PartialEq, Eq, Structural)]
pub enum FileKind {
    /// Plain text.
    Text,
    /// A word-processor document in the packaged format.
    Docx,
    /// A word-processor document in the older binary format.
    Doc,
}

/// The kind of a file with the given name extension: `docx` and `doc` name
/// the two document formats; every other extension, and none, is read as
/// plain text.
pub open spec fn kind_of(extension: Option<Seq<char>>) -> FileKind {
    match extension {
        Some(name) => if name == "docx"@ {
            FileKind::Docx
        } else if name == "doc"@ {
            FileKind::Doc
        } else {
            FileKind::Text
        },
        None => FileKind::Text,
    }
}

/// The view of an optional string slice.
pub open spec fn optional_view(text: Option<&str>) -> Option<Seq<char>> {
    match text {
        Some(text) => Some(text@),
        None => None,
    }
}

/// Tells by its name extension how a file is read.
pub fn file_kind(extension: Option<&str>) -> (kind: FileKind)
    ensures
        kind == kind_of(optional_view(extension)),
{
    match extension {
        Some(name) => {
            let name = String::from_str(name);
            if name == String::from_str("docx") {
                FileKind::Docx
            } else if name == String::from_str("doc") {
                FileKind::Doc
            } else {
                FileKind::Text
            }
        },
        None => FileKind::Text,
    }
}

/// One piece of a run of text in a document.
#[derive(Debug)]
pub enum RunChild {
    Text(String),
    Break,
    Tab,
    /// Anything that holds no text.
    Other,
}

/// One piece of a paragraph.
#[derive(Debug)]
pub enum ParagraphChild {
    Run(Vec<RunChild>),
    /// Anything that holds no text.
    Other,
}

/// One piece of the body of a document.
#[derive(Debug)]
pub enum DocumentChild {
    Paragraph(Vec<ParagraphChild>),
    Table,
    /// Anything that holds no text.
    Other,
}

/// What stands for a table in the text of a document.
pub open spec fn table_mark() -> Seq<char> {
    "\n[таблица]\n"@
}

/// The text of one piece of a run: a text followed by a space, a line feed
/// for a break, a tabulator for a tab.
pub open spec fn run_child_text(child: RunChild) -> Seq<char> {
    match child {
        RunChild::Text(text) => text@.push(' '),
        RunChild::Break => seq!['\n'],
        RunChild::Tab => seq!['\t'],
        RunChild::Other => Seq::empty(),
    }
}

/// The text of the first `count` pieces of a run.
pub open spec fn run_text(children: Seq<RunChild>, count: int) -> Seq<char>
    decreases count,
{
    if count <= 0 {
        Seq::empty()
    } else {
        run_text(children, count - 1) + run_child_text(children[count - 1])
    }
}

/// The text of one piece of a paragraph.
pub open spec fn paragraph_child_text(child: ParagraphChild) -> Seq<char> {
    match child {
        ParagraphChild::Run(children) => run_text(children@, children@.len() as int),
        ParagraphChild::Other => Seq::empty(),
    }
}

/// The text of the first `count` pieces of a paragraph.
pub open spec fn paragraph_text(children: Seq<ParagraphChild>, count: int) -> Seq<char>
    decreases count,
{
    if count <= 0 {
        Seq::empty()
    } else {
        paragraph_text(children, count - 1) + paragraph_child_text(children[count - 1])
    }
}

/// The text of one piece of a document: a paragraph's text and a line feed,
/// or the mark that stands for a table.
pub open spec fn document_child_text(child: DocumentChild) -> Seq<char> {
    match child {
        DocumentChild::Paragraph(children) => paragraph_text(
            children@,
            children@.len() as int,
        ).push('\n'),
        DocumentChild::Table => table_mark(),
        DocumentChild::Other => Seq::empty(),
    }
}

/// The text of the first `count` pieces of a document.
pub open spec fn document_text(children: Seq<DocumentChild>, count: int) -> Seq<char>
    decreases count,
{
    if count <= 0 {
        Seq::empty()
    } else {
        document_text(children, count - 1) + document_child_text(children[count - 1])
    }
}

/// Appends the text of one piece of a document to `text`.
pub fn extract_text_from_document(document: &DocumentChild, text: &mut String)
    ensures
        final(text)@ == old(text)@ + document_child_text(*document),
{
    match document {
        DocumentChild::Paragraph(children) => {
            let mut i: usize = 0;
            while i < children.len()
                invariant
                    i <= children.len(),
                    text@ == old(text)@ + paragraph_text(children@, i as int),
                decreases children.len() - i,
            {
                let ghost before = text@;
                match &children[i] {
                    ParagraphChild::Run(run) => {
                        let mut j: usize = 0;
                        while j < run.len()
                            invariant
                                j <= run.len(),
                                text@ == before + run_text(run@, j as int),
                            decreases run.len() - j,
                        {
                            match &run[j] {
                                RunChild::Text(t) => {
                                    text.append(t.as_str());
                                    text.push(' ');
                                },
                                RunChild::Break => {
                                    text.push('\n');
                                },
                                RunChild::Tab => {
                                    text.push('\t');
                                },
                                RunChild::Other => {},
                            }
                            proof {
                                assert(text@ =~= before + run_text(run@, j + 1));
                            }
                            j += 1;
                        }
                    },
                    ParagraphChild::Other => {},
                }
                proof {
                    assert(text@ =~= old(text)@ + paragraph_text(children@, i + 1));
                }
                i += 1;
            }
            text.push('\n');
            proof {
                assert(text@ =~= old(text)@ + document_child_text(*document));
            }
        },
        DocumentChild::Table => {
            text.append("\n[таблица]\n");
        },
        DocumentChild::Other => {
            proof {
                assert(text@ =~= old(text)@ + document_child_text(*document));
            }
        },
    }
}

/// The text of a document: the text of its pieces, one after the other,
/// without the white space at both ends.
pub fn extract_text_from_docx(children: &[DocumentChild]) -> (text: String)
    ensures
        text@ == trimmed(document_text(children@, children@.len() as int)),
{
    let mut text = String::new();
    let mut i: usize = 0;
    while i < children.len()
        invariant
            i <= children.len(),
            text@ == document_text(children@, i as int),
        decreases children.len() - i,
    {
        extract_text_from_document(&children[i], &mut text);
        i += 1;
    }
    let chars = chars_of(text.as_str());
    let inner = trim(chars.as_slice());
    string_of(inner.as_slice())
}

/// A word starts at index `at`: the `char` there is not flagged as white
/// space, and it is the first or follows one that is.
pub open spec fn starts_word(white: Seq<bool>, at: int) -> bool {
    &&& 0 <= at < white.len()
    &&& !white[at]
    &&& (at == 0 || white[at - 1])
}

/// The number of words that start among the first `count` `char`s.
pub open spec fn words_upto(white: Seq<bool>, count: int) -> nat
    decreases count,
{
    if count <= 0 {
        0
    } else if starts_word(white, count - 1) {
        words_upto(white, count - 1) + 1
    } else {
        words_upto(white, count - 1)
    }
}

/// The number of words of a text: of its runs of `char`s that are not white
/// space.
pub open spec fn word_count(text: Seq<char>) -> nat {
    words_upto(whiteness(text), text.len() as int)
}

/// The number of lines of a text, an empty text counting as one line.
pub open spec fn line_count(text: Seq<char>) -> nat {
    if text.len() == 0 {
        1
    } else {
        lines_of(text).len()
    }
}

/// The number of runs of `char`s that are not flagged as white space.
pub fn count_word_starts(white: &[bool]) -> (count: usize)
    ensures
        count == words_upto(white@, white@.len() as int),
{
    let mut count: usize = 0;
    let mut i: usize = 0;
    while i < white.len()
        invariant
            i <= white.len(),
            count <= i,
            count == words_upto(white@, i as int),
        decreases white.len() - i,
    {
        if !white[i] && (i == 0 || white[i - 1]) {
            count += 1;
        }
        i += 1;
    }
    count
}

/// The number of words of a text.
pub fn count_words(text: &str) -> (count: usize)
    ensures
        count == word_count(text@),
{
    let chars = chars_of(text);
    let white = white_flags(chars.as_slice());
    count_word_starts(white.as_slice())
}

/// The number of `char`s of a text.
pub fn count_characters(text: &str) -> (count: usize)
    ensures
        count == text@.len(),
{
    text.unicode_len()
}

/// The number of lines of a text, an empty text counting as one line.
pub fn count_lines(text: &str) -> (count: usize)
    ensures
        count == line_count(text@),
{
    if text.is_empty() {
        1
    } else {
        let chars = chars_of(text);
        split_lines(chars.as_slice()).len()
    }
}

} // verus!
