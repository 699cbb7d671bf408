//! Indentation of a span of text: the least column at which one of its
//! lines starts to hold something other than whitespace.

use std::ops::Range;
use vstd::prelude::*;
use vstd::std_specs::iter::IteratorSpec;
use vstd::string::StringSliceAdditionalSpecFns;
use vstd::utf8::{encode_scalar, encode_utf8};

verus! {

/// Read access to the text of the document that a tree describes. Positions
/// and lengths are in the unit of the nodes' lengths.
pub trait TextModel {
    /// The text in `range`.
    fn get_text_range(&self, range: Range<usize>) -> &str;

    /// The text of the line with the number `line_number`.
    fn get_line(&self, line_number: usize) -> &str;
}

/// Whether `c` has the Unicode property `White_Space`.
pub uninterp spec fn is_whitespace(c: char) -> bool;

/// Calls `char::is_whitespace`. Taken on trust: the answer is a function of
/// the character alone, the property `White_Space` of the Unicode character
/// database; nothing is claimed of any single character.
#[verifier::external_body]
fn char_is_whitespace(c: char) -> (whitespace: bool)
    ensures
        whitespace == is_whitespace(c),
{
    c.is_whitespace()
}

/// Whether `c` is whitespace: whether it has the Unicode property
/// `White_Space`.
pub fn is_whitespace_char(c: char) -> (whitespace: bool)
    ensures
        whitespace == is_whitespace(c),
{
    char_is_whitespace(c)
}

/// `end` is where the first line of `text` ends: at its first line feed, or
/// at the end of `text` where it holds none.
pub open spec fn is_line_end(text: Seq<char>, end: int) -> bool {
    &&& 0 <= end <= text.len()
    &&& forall|i: int| 0 <= i < end ==> text[i] != '\n'
    &&& end < text.len() ==> text[end] == '\n'
}

/// Where the first line of `text` ends.
pub open spec fn line_end(text: Seq<char>) -> int {
    choose|end: int| is_line_end(text, end)
}

/// A line without the carriage return that a line ending may start with.
pub open spec fn without_carriage_return(line: Seq<char>) -> Seq<char> {
    if line.len() > 0 && line.last() == '\r' {
        line.drop_last()
    } else {
        line
    }
}

/// The lines of `text`. A line ends with a line feed, or with a carriage
/// return and a line feed; neither belongs to the line. What follows the
/// last line ending is a line too, unless it is empty.
pub open spec fn lines(text: Seq<char>) -> Seq<Seq<char>>
    decreases text.len(),
{
    let end = line_end(text);
    if text.len() == 0 {
        Seq::empty()
    } else if 0 <= end < text.len() {
        seq![without_carriage_return(text.take(end))] + lines(text.skip(end + 1))
    } else {
        seq![text]
    }
}

/// `column` is where `line` first holds something other than whitespace.
pub open spec fn is_first_content(line: Seq<char>, column: int) -> bool {
    &&& 0 <= column < line.len()
    &&& !is_whitespace(line[column])
    &&& forall|i: int| 0 <= i < column ==> is_whitespace(line[i])
}

/// The indentation of one line: the column of its first character that is
/// no whitespace, `usize::MAX` for a line that holds nothing else.
pub open spec fn line_indentation(line: Seq<char>) -> int {
    if exists|column: int| is_first_content(line, column) {
        choose|column: int| is_first_content(line, column)
    } else {
        usize::MAX as int
    }
}

/// The least indentation among `lines`, `usize::MAX` where there is none.
pub open spec fn least_indentation(lines: Seq<Seq<char>>) -> int
    decreases lines.len(),
{
    if lines.len() == 0 {
        usize::MAX as int
    } else {
        let first = line_indentation(lines[0]);
        let rest = least_indentation(lines.skip(1));
        if first <= rest {
            first
        } else {
            rest
        }
    }
}

/// The least indentation among the lines of `text`: `usize::MAX` where no
/// line holds anything but whitespace.
pub open spec fn min_indentation(text: Seq<char>) -> int {
    least_indentation(lines(text))
}

/// A position that meets `is_line_end` is the line end.
proof fn lemma_line_end(text: Seq<char>, end: int)
    requires
        is_line_end(text, end),
    ensures
        line_end(text) == end,
{
    let chosen = line_end(text);
    assert(is_line_end(text, chosen));
    if chosen < end {
        assert(text[chosen] == '\n');
    } else if end < chosen {
        assert(text[end] == '\n');
    }
}

/// A column that meets `is_first_content` is the indentation.
proof fn lemma_line_indentation(line: Seq<char>, column: int)
    requires
        is_first_content(line, column),
    ensures
        line_indentation(line) == column,
{
    let chosen = choose|column: int| is_first_content(line, column);
    assert(is_first_content(line, chosen));
    if chosen < column {
        assert(is_whitespace(line[chosen]));
    } else if column < chosen {
        assert(is_whitespace(line[column]));
    }
}

/// A line of whitespace has no indentation.
proof fn lemma_blank_line(line: Seq<char>)
    requires
        is_blank(line),
    ensures
        line_indentation(line) == usize::MAX,
{
    if exists|column: int| is_first_content(line, column) {
        let chosen = choose|column: int| is_first_content(line, column);
        assert(is_whitespace(line[chosen]));
    }
}

/// No indentation lies above `usize::MAX`.
proof fn lemma_least_indentation_bound(lines: Seq<Seq<char>>)
    ensures
        least_indentation(lines) <= usize::MAX,
    decreases lines.len(),
{
    if lines.len() > 0 {
        lemma_least_indentation_bound(lines.skip(1));
    }
}

/// A text has no more characters than its encoding has bytes.
proof fn lemma_chars_within_bytes(chars: Seq<char>)
    ensures
        chars.len() <= encode_utf8(chars).len(),
    decreases chars.len(),
{
    if chars.len() > 0 {
        lemma_chars_within_bytes(chars.drop_first());
        assert(encode_scalar(chars[0] as u32).len() >= 1);
    }
}

/// Whether `line` holds nothing but whitespace.
pub open spec fn is_blank(line: Seq<char>) -> bool {
    forall|i: int| 0 <= i < line.len() ==> is_whitespace(line[i])
}

/// The least indentation is that of one of the lines, and no line has a
/// smaller one; where there is no line, it is `usize::MAX`.
pub proof fn lemma_least_indentation(lines: Seq<Seq<char>>)
    ensures
        forall|i: int|
            0 <= i < lines.len() ==> least_indentation(lines) <= line_indentation(
                #[trigger] lines[i],
            ),
        least_indentation(lines) == usize::MAX || exists|i: int|
            0 <= i < lines.len() && least_indentation(lines) == line_indentation(
                #[trigger] lines[i],
            ),
    decreases lines.len(),
{
    if lines.len() > 0 {
        let rest = lines.skip(1);
        lemma_least_indentation(rest);
        assert forall|i: int| 0 <= i < lines.len() implies least_indentation(lines)
            <= line_indentation(#[trigger] lines[i]) by {
            if i > 0 {
                assert(rest[i - 1] == lines[i]);
            }
        }
        if least_indentation(lines) != usize::MAX {
            if least_indentation(lines) == line_indentation(lines[0]) {
            } else {
                let i = choose|i: int|
                    0 <= i < rest.len() && least_indentation(rest) == line_indentation(
                        #[trigger] rest[i],
                    );
                assert(rest[i] == lines[i + 1]);
            }
        }
    }
}

/// A text whose lines hold nothing but whitespace has no indentation:
/// the answer is `usize::MAX`.
pub proof fn lemma_blank_text(text: Seq<char>)
    requires
        forall|i: int| 0 <= i < lines(text).len() ==> is_blank(#[trigger] lines(text)[i]),
    ensures
        min_indentation(text) == usize::MAX,
{
    let all = lines(text);
    lemma_least_indentation(all);
    if least_indentation(all) != usize::MAX {
        let i = choose|i: int|
            0 <= i < all.len() && least_indentation(all) == line_indentation(#[trigger] all[i]);
        assert(is_blank(all[i]));
        lemma_blank_line(all[i]);
    }
}

/// The least indentation among the lines of `text`, `usize::MAX` where no
/// line holds anything but whitespace.
pub fn min_indentation_of(text: &str) -> (indentation: usize)
    ensures
        indentation == min_indentation(text@),
{
    broadcast use vstd::string::group_string_axioms;

    let byte_length: usize = text.as_bytes().len();
    proof {
        lemma_chars_within_bytes(text@);
    }
    if byte_length == 0 {
        return usize::MAX;
    }
    let mut chars = text.chars();
    let mut best: usize = usize::MAX;
    let ghost mut start: int = 0;
    let mut at_end = false;
    proof {
        assert(text@.skip(0) =~= text@);
        lemma_least_indentation_bound(lines(text@));
    }
    // One round for each line; `start` is where the line begins.
    while !at_end
        invariant
            text@.len() <= usize::MAX,
            0 <= start <= text@.len(),
            chars.remaining() == text@.skip(start),
            at_end ==> start == text@.len(),
            min_indentation(text@) == if best <= min_indentation(text@.skip(start)) {
                best as int
            } else {
                min_indentation(text@.skip(start))
            },
        decreases text@.len() - start + (if at_end { 0int } else { 1int }),
    {
        let ghost rest = text@.skip(start);
        let mut column: usize = 0;
        let mut first: usize = usize::MAX;
        let mut last_is_carriage_return = false;
        let mut line_feed = false;
        // Reads up to the line feed, or to the end of the text; `first` is
        // the column of the first character that is no whitespace.
        while !line_feed && !at_end
            invariant
                text@.len() <= usize::MAX,
                0 <= start <= text@.len(),
                rest == text@.skip(start),
                0 <= column <= rest.len(),
                !line_feed ==> chars.remaining() == rest.skip(column as int),
                line_feed ==> column < rest.len() && rest[column as int] == '\n'
                    && chars.remaining() == rest.skip(column + 1),
                at_end ==> column == rest.len() && !line_feed,
                forall|i: int| 0 <= i < column ==> rest[i] != '\n',
                first == usize::MAX ==> forall|i: int| 0 <= i < column ==> is_whitespace(rest[i]),
                first != usize::MAX ==> first < column && is_first_content(
                    rest.take(column as int),
                    first as int,
                ),
                last_is_carriage_return == (column > 0 && rest[column - 1] == '\r'),
            decreases rest.len() - column + (if line_feed || at_end { 0int } else { 1int }),
        {
            match chars.next() {
                None => {
                    at_end = true;
                },
                Some(c) => {
                    assert(c == rest[column as int]);
                    if c == '\n' {
                        line_feed = true;
                    } else {
                        if first == usize::MAX && !is_whitespace_char(c) {
                            first = column;
                        }
                        last_is_carriage_return = c == '\r';
                        column += 1;
                    }
                },
            }
        }
        if line_feed || column > 0 {
            // A carriage return before the line feed belongs to the line
            // ending, so it is no content of the line.
            let stripped = line_feed && last_is_carriage_return;
            let indentation = if stripped && first == column - 1 {
                usize::MAX
            } else {
                first
            };
            proof {
                lemma_line_end(rest, column as int);
                let line = if line_feed {
                    without_carriage_return(rest.take(column as int))
                } else {
                    rest
                };
                if first == usize::MAX {
                    lemma_blank_line(line);
                } else if stripped && first == column - 1 {
                    lemma_blank_line(line);
                } else {
                    if !line_feed {
                        assert(rest.take(column as int) =~= rest);
                    }
                    lemma_line_indentation(line, first as int);
                }
                assert(indentation == line_indentation(line));
                if line_feed {
                    assert(lines(rest) == seq![line] + lines(rest.skip(column + 1)));
                    assert((seq![line] + lines(rest.skip(column + 1))).skip(1) =~= lines(
                        rest.skip(column + 1),
                    ));
                    assert(rest.skip(column + 1) =~= text@.skip(start + column + 1));
                } else {
                    assert(lines(rest) == seq![line]);
                    assert(seq![line].skip(1) =~= Seq::<Seq<char>>::empty());
                }
            }
            if indentation < best {
                best = indentation;
            }
        }
        proof {
            if line_feed {
                start = start + column + 1;
            } else {
                start = text@.len() as int;
            }
        }
    }
    best
}

} // verus!
