//! Text as lines: splitting a text into its lines, and what comes back when
//! lines are joined and split again.

use vstd::prelude::*;
use crate::text::{joined, lemma_joined_from_front, texts};

verus! {

/// The position of the first line feed in `text`, or its length if it has none.
pub open spec fn line_end(text: Seq<char>) -> nat
    decreases text.len(),
{
    if text.len() == 0 || text[0] == '\n' {
        0
    } else {
        1 + line_end(text.drop_first())
    }
}

/// Whether the last character of `line` is a carriage return.
pub open spec fn ends_with_return(line: Seq<char>) -> bool {
    line.len() > 0 && line.last() == '\r'
}

/// `line` without the carriage return that ends it, if one does.
pub open spec fn without_return(line: Seq<char>) -> Seq<char> {
    if ends_with_return(line) {
        line.drop_last()
    } else {
        line
    }
}

/// The lines of `text`. A line ends at a line feed, or at a carriage return
/// directly followed by one; neither belongs to the line. What follows the
/// last line feed is a line of its own, taken whole, unless it is empty.
pub open spec fn lines_of(text: Seq<char>) -> Seq<Seq<char>>
    decreases text.len(),
{
    let end = line_end(text) as int;
    if text.len() == 0 {
        Seq::empty()
    } else if end < text.len() {
        seq![without_return(text.take(end))] + lines_of(text.skip(end + 1))
    } else {
        seq![text]
    }
}

/// What reading gives for the text that `lines` were joined to: every line
/// but the last without the carriage return that ends it, and the last line
/// unless it is empty.
pub open spec fn read_back(lines: Seq<Seq<char>>) -> Seq<Seq<char>> {
    if lines.len() == 0 {
        Seq::empty()
    } else {
        let ended = lines.drop_last().map_values(|line: Seq<char>| without_return(line));
        if lines.last().len() > 0 {
            ended.push(lines.last())
        } else {
            ended
        }
    }
}

/// Splits `text` into its lines.
pub fn split_lines(text: &str) -> (lines: Vec<String>)
    ensures
        texts(lines@) == lines_of(text@),
{
    let mut lines: Vec<String> = Vec::new();
    let mut line = String::new();
    // A carriage return that was read and not yet written to `line`: it is
    // dropped if a line feed follows, and written otherwise.
    let mut held_return = false;
    let ghost mut start: int = 0;
    proof {
        assert(text@.skip(0) =~= text@);
    }
    for c in it: text.chars()
        invariant
            it.seq() == text@,
            0 <= start <= it.index(),
            line@ + (if held_return { seq!['\r'] } else { Seq::<char>::empty() })
                == text@.subrange(start, it.index()),
            !held_return ==> !ends_with_return(line@),
            forall|k: int| start <= k < it.index() ==> text@[k] != '\n',
            lines_of(text@) == texts(lines@) + lines_of(text@.skip(start)),
    {
        let ghost at = it.index();
        let ghost rest = text@.skip(start);
        if c == '\n' {
            proof {
                lemma_line_end_at(rest, at - start);
                assert(rest.take(at - start) =~= text@.subrange(start, at));
                assert(rest.skip(at - start + 1) =~= text@.skip(at + 1));
                assert(without_return(text@.subrange(start, at)) =~= line@);
            }
            lines.push(line);
            line = String::new();
            held_return = false;
            proof {
                start = at + 1;
            }
        } else {
            if held_return {
                line.push('\r');
            }
            if c == '\r' {
                held_return = true;
            } else {
                held_return = false;
                line.push(c);
            }
            assert(text@.subrange(start, at + 1) =~= text@.subrange(start, at).push(c));
        }
    }
    if held_return {
        line.push('\r');
    }
    proof {
        let rest = text@.skip(start);
        assert(line@ =~= rest);
        lemma_line_end_at(rest, rest.len() as int);
    }
    if !line.as_str().is_empty() {
        lines.push(line);
    }
    lines
}

/// `line_end` is the one position that has no line feed before it and either
/// holds one or is the end of the text.
pub proof fn lemma_line_end_at(text: Seq<char>, end: int)
    requires
        0 <= end <= text.len(),
        forall|k: int| 0 <= k < end ==> text[k] != '\n',
        end < text.len() ==> text[end] == '\n',
    ensures
        line_end(text) == end,
    decreases end,
{
    if end > 0 {
        lemma_line_end_at(text.drop_first(), end - 1);
    }
}

/// There is no line feed before `line_end`, and one at it unless it is the
/// end of the text.
pub proof fn lemma_line_end_bounds(text: Seq<char>)
    ensures
        line_end(text) <= text.len(),
        forall|k: int| 0 <= k < line_end(text) ==> text[k] != '\n',
        line_end(text) < text.len() ==> text[line_end(text) as int] == '\n',
    decreases text.len(),
{
    if !(text.len() == 0 || text[0] == '\n') {
        let rest = text.drop_first();
        lemma_line_end_bounds(rest);
        assert forall|k: int| 0 <= k < line_end(text) implies text[k] != '\n' by {
            if k > 0 {
                assert(text[k] == rest[k - 1]);
            }
        }
    }
}

/// No line of a text holds a line feed.
pub proof fn lemma_lines_hold_no_line_feed(text: Seq<char>)
    ensures
        forall|i: int|
            0 <= i < lines_of(text).len() ==> !(#[trigger] lines_of(text)[i]).contains('\n'),
    decreases text.len(),
{
    let end = line_end(text) as int;
    lemma_line_end_bounds(text);
    if text.len() > 0 && end < text.len() {
        let rest = text.skip(end + 1);
        lemma_lines_hold_no_line_feed(rest);
        assert forall|i: int| 0 <= i < lines_of(text).len() implies !(#[trigger] lines_of(
            text,
        )[i]).contains('\n') by {
            if i > 0 {
                assert(lines_of(text)[i] == lines_of(rest)[i - 1]);
            }
        }
    }
}

/// Lines without a line feed, joined by line feeds and split again, come back
/// as `read_back` says.
pub proof fn lemma_lines_of_joined(lines: Seq<Seq<char>>)
    requires
        forall|i: int| 0 <= i < lines.len() ==> !(#[trigger] lines[i]).contains('\n'),
    ensures
        lines_of(joined(lines, seq!['\n'])) == read_back(lines),
    decreases lines.len(),
{
    let feed = seq!['\n'];
    let text = joined(lines, feed);
    if lines.len() == 1 {
        if text.len() > 0 {
            lemma_line_end_at(text, text.len() as int);
        }
    } else if lines.len() >= 2 {
        let first = lines[0];
        let rest = lines.drop_first();
        lemma_joined_from_front(lines, feed);
        lemma_line_end_at(text, first.len() as int);
        assert(text.take(first.len() as int) =~= first);
        assert(text.skip(first.len() as int + 1) =~= joined(rest, feed));
        lemma_lines_of_joined(rest);
    }
}

} // verus!
