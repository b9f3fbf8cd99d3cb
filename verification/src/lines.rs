//! Lines: the splitting of text at line boundaries and the joining of lines.

use crate::text::{
    chars_of, first_match, lemma_first_match, lemma_first_match_found, string_of,
};
use vstd::prelude::*;

verus! {

/// The views of the given strings, one per line.
pub open spec fn line_views(lines: Seq<String>) -> Seq<Seq<char>> {
    lines.map_values(|line: String| line@)
}

/// Whether a character is the line feed.
pub open spec fn is_line_feed() -> spec_fn(char) -> bool {
    |c: char| c == '\n'
}

/// The number of characters of `text` that stand before its first line feed,
/// or the length of `text` where it holds none.
pub open spec fn line_end(text: Seq<char>) -> int {
    first_match(text, is_line_feed())
}

/// `line` without a carriage return at its end.
pub open spec fn without_cr(line: Seq<char>) -> Seq<char> {
    if line.len() > 0 && line.last() == '\r' {
        line.drop_last()
    } else {
        line
    }
}

/// The lines of `text`. A line ends at a line feed, or at a carriage return
/// directly followed by one; neither belongs to the line. A line ending at the
/// very end of the text starts no further line, and the empty text has no lines.
pub open spec fn split_lines(text: Seq<char>) -> Seq<Seq<char>>
    decreases text.len(),
{
    if text.len() == 0 {
        Seq::empty()
    } else {
        let end = line_end(text);
        if 0 <= end < text.len() {
            seq![without_cr(text.take(end))] + split_lines(text.skip(end + 1))
        } else {
            seq![text]
        }
    }
}

/// The lines joined by single line feeds, with none after the last line.
pub open spec fn join_lines(lines: Seq<Seq<char>>) -> Seq<char>
    decreases lines.len(),
{
    if lines.len() == 0 {
        Seq::empty()
    } else if lines.len() == 1 {
        lines[0]
    } else {
        join_lines(lines.drop_last()) + seq!['\n'] + lines.last()
    }
}

/// Splits `text` into its lines.
pub fn lines_of(text: &str) -> (lines: Vec<String>)
    ensures
        line_views(lines@) == split_lines(text@),
{
    let chars = chars_of(text);
    let mut lines: Vec<String> = Vec::new();
    let mut start: usize = 0;
    assert(chars@.skip(0) =~= text@);
    assert(line_views(lines@) + split_lines(text@) =~= split_lines(text@));
    while start < chars.len()
        invariant
            start <= chars.len(),
            chars@ == text@,
            line_views(lines@) + split_lines(chars@.skip(start as int)) == split_lines(text@),
        decreases chars.len() - start,
    {
        let ghost rest = chars@.skip(start as int);
        let ghost done = line_views(lines@);
        let mut end: usize = start;
        while end < chars.len() && chars[end] != '\n'
            invariant
                start <= end <= chars.len(),
                forall|k: int| start <= k < end ==> chars@[k] != '\n',
            decreases chars.len() - end,
        {
            end += 1;
        }
        proof {
            lemma_first_match(rest, is_line_feed(), end - start);
        }
        if end < chars.len() {
            let stop: usize = if end > start && chars[end - 1] == '\r' {
                end - 1
            } else {
                end
            };
            let line = string_of(&chars, start, stop);
            assert(line@ =~= without_cr(rest.take(end - start)));
            lines.push(line);
            assert(rest.skip(end - start + 1) =~= chars@.skip(end + 1));
            assert(line_views(lines@) =~= done + seq![line@]);
            start = end + 1;
        } else {
            let line = string_of(&chars, start, end);
            assert(line@ =~= rest);
            lines.push(line);
            assert(line_views(lines@) =~= done + seq![line@]);
            start = end;
        }
    }
    assert(line_views(lines@) + Seq::<Seq<char>>::empty() =~= line_views(lines@));
    lines
}

/// Joins `lines` with single line feeds.
pub fn text_of(lines: &Vec<String>) -> (text: String)
    ensures
        text@ == join_lines(line_views(lines@)),
{
    let mut text = String::new();
    let mut i: usize = 0;
    while i < lines.len()
        invariant
            i <= lines.len(),
            text@ == join_lines(line_views(lines@).take(i as int)),
        decreases lines.len() - i,
    {
        let ghost before = line_views(lines@).take(i as int);
        let ghost after = line_views(lines@).take(i + 1);
        assert(after.drop_last() =~= before);
        if i > 0 {
            text.push('\n');
        }
        text.append(lines[i].as_str());
        i += 1;
    }
    assert(line_views(lines@).take(lines.len() as int) =~= line_views(lines@));
    text
}

/// Whether joining the lines and splitting the text again gives the same
/// lines: no line holds a line feed, no line but the last ends in a carriage
/// return, and the last line is not empty.
pub open spec fn survives_joining(lines: Seq<Seq<char>>) -> bool {
    &&& forall|k: int, j: int|
        0 <= k < lines.len() && 0 <= j < lines[k].len() ==> (#[trigger] lines[k][j]) != '\n'
    &&& forall|k: int| 0 <= k < lines.len() - 1 ==> without_cr(#[trigger] lines[k]) == lines[k]
    &&& lines.len() > 0 ==> lines.last().len() > 0
}

/// Joining at least two lines puts the first line and a line feed before the
/// joined rest.
pub proof fn lemma_join_first(lines: Seq<Seq<char>>)
    requires
        lines.len() >= 2,
    ensures
        join_lines(lines) == lines[0] + seq!['\n'] + join_lines(lines.skip(1)),
    decreases lines.len(),
{
    let rest = lines.skip(1);
    if lines.len() == 2 {
        assert(lines.drop_last() =~= seq![lines[0]]);
        assert(join_lines(lines.drop_last()) == lines[0]);
        assert(join_lines(rest) == lines[1]);
    } else {
        lemma_join_first(lines.drop_last());
        assert(lines.drop_last().skip(1) =~= rest.drop_last());
        assert(rest.last() == lines.last());
        assert(join_lines(lines) =~= lines[0] + seq!['\n'] + join_lines(rest));
    }
}

/// Splitting what was joined gives the lines back, for lines that survive
/// joining.
pub proof fn lemma_split_joined(lines: Seq<Seq<char>>)
    requires
        survives_joining(lines),
    ensures
        split_lines(join_lines(lines)) == lines,
    decreases lines.len(),
{
    let text = join_lines(lines);
    if lines.len() == 0 {
        assert(split_lines(text) =~= lines);
    } else if lines.len() == 1 {
        assert forall|j: int| 0 <= j < text.len() implies !is_line_feed()(text[j]) by {
            assert(lines[0][j] != '\n');
        }
        lemma_first_match(text, is_line_feed(), text.len() as int);
        assert(split_lines(text) =~= lines);
    } else {
        let first = lines[0];
        let rest = lines.skip(1);
        lemma_join_first(lines);
        assert forall|j: int| 0 <= j < first.len() implies !is_line_feed()(text[j]) by {
            assert(lines[0][j] != '\n');
        }
        lemma_first_match(text, is_line_feed(), first.len() as int);
        assert(text.take(first.len() as int) =~= first);
        assert(text.skip(first.len() as int + 1) =~= join_lines(rest));
        assert(survives_joining(rest)) by {
            assert forall|k: int, j: int|
                0 <= k < rest.len() && 0 <= j < rest[k].len() implies (#[trigger] rest[k][j])
                != '\n' by {
                assert(lines[k + 1][j] != '\n');
            }
            assert forall|k: int| 0 <= k < rest.len() - 1 implies without_cr(
                #[trigger] rest[k],
            ) == rest[k] by {
                assert(without_cr(lines[k + 1]) == lines[k + 1]);
            }
            assert(rest.last() == lines.last());
        }
        lemma_split_joined(rest);
        assert(without_cr(first) == first);
        assert(split_lines(text) =~= lines);
    }
}

/// No line of a text holds a line feed.
pub proof fn lemma_lines_hold_no_line_feed(text: Seq<char>)
    ensures
        forall|k: int, j: int|
            0 <= k < split_lines(text).len() && 0 <= j < split_lines(text)[k].len() ==> (
            #[trigger] split_lines(text)[k][j]) != '\n',
    decreases text.len(),
{
    if text.len() > 0 {
        let end = line_end(text);
        lemma_first_match_found(text, is_line_feed());
        assert forall|j: int| 0 <= j < end implies text[j] != '\n' by {
            assert(!is_line_feed()(text[j]));
        }
        if end < text.len() {
            let first = without_cr(text.take(end));
            let rest = split_lines(text.skip(end + 1));
            lemma_lines_hold_no_line_feed(text.skip(end + 1));
            assert forall|k: int, j: int|
                0 <= k < split_lines(text).len() && 0 <= j < split_lines(
                    text,
                )[k].len() implies (#[trigger] split_lines(text)[k][j]) != '\n' by {
                if k == 0 {
                    assert(split_lines(text)[0] == first);
                    assert(first[j] == text[j]);
                } else {
                    assert(split_lines(text)[k] == rest[k - 1]);
                    assert(rest[k - 1][j] != '\n');
                }
            }
        }
    }
}

} // verus!
