//! Extraction of the code block from a reply that may hold commentary and
//! fenced code.

use crate::document::Document;
use crate::lines::{join_lines, line_views, split_lines};
use crate::text::{chars_of, first_match, leading_whitespace, lemma_first_match, trim_start};
use vstd::prelude::*;

verus! {

/// Whether a line begins with the fence marker, three backticks.
pub open spec fn begins_with_fence(line: Seq<char>) -> bool {
    line.len() >= 3 && line[0] == '`' && line[1] == '`' && line[2] == '`'
}

/// Whether a line can open a code block: without the white space at its start
/// it begins with the fence marker.
pub open spec fn is_opening_fence() -> spec_fn(Seq<char>) -> bool {
    |line: Seq<char>| begins_with_fence(trim_start(line))
}

/// Whether a line closes an open code block: it begins with the fence marker.
pub open spec fn is_closing_fence() -> spec_fn(Seq<char>) -> bool {
    |line: Seq<char>| begins_with_fence(line)
}

/// The lines of the first code block of a reply: those strictly between the
/// first opening fence and the next closing fence after it, or the end of the
/// reply where no closing fence follows. A reply without an opening fence has
/// no code.
pub open spec fn code_block(reply: Seq<Seq<char>>) -> Seq<Seq<char>> {
    let opening = first_match(reply, is_opening_fence());
    if 0 <= opening < reply.len() {
        let rest = reply.skip(opening + 1);
        rest.take(first_match(rest, is_closing_fence()))
    } else {
        Seq::empty()
    }
}

/// Whether `chars[from..]` begins with the fence marker.
fn fence_at(chars: &Vec<char>, from: usize) -> (found: bool)
    requires
        from <= chars.len(),
    ensures
        found == begins_with_fence(chars@.skip(from as int)),
{
    chars.len() - from >= 3 && chars[from] == '`' && chars[from + 1] == '`' && chars[from + 2]
        == '`'
}

/// Whether the line can open a code block.
pub fn opens_block(line: &str) -> (opens: bool)
    ensures
        opens == is_opening_fence()(line@),
{
    let chars = chars_of(line);
    let start = leading_whitespace(&chars);
    fence_at(&chars, start)
}

/// Whether the line closes an open code block.
pub fn closes_block(line: &str) -> (closes: bool)
    ensures
        closes == is_closing_fence()(line@),
{
    let chars = chars_of(line);
    assert(chars@.skip(0) =~= line@);
    fence_at(&chars, 0)
}

/// The first code block of the reply.
pub fn extract_code_block(reply: &Document) -> (code: Document)
    ensures
        code@ == code_block(reply@),
{
    let lines = reply.lines();
    let ghost views = line_views(lines@);
    let mut opening: usize = 0;
    while opening < lines.len() && !opens_block(lines[opening].as_str())
        invariant
            opening <= lines.len(),
            views == line_views(lines@),
            forall|k: int| 0 <= k < opening ==> !is_opening_fence()(views[k]),
        decreases lines.len() - opening,
    {
        opening += 1;
    }
    proof {
        lemma_first_match(views, is_opening_fence(), opening as int);
    }
    if opening == lines.len() {
        return Document::empty();
    }
    let ghost rest = views.skip(opening + 1);
    let mut code: Vec<String> = Vec::new();
    let mut next: usize = opening + 1;
    while next < lines.len() && !closes_block(lines[next].as_str())
        invariant
            opening < next <= lines.len(),
            views == line_views(lines@),
            rest == views.skip(opening + 1),
            forall|k: int| 0 <= k < next - opening - 1 ==> !is_closing_fence()(rest[k]),
            line_views(code@) == rest.take(next - opening - 1),
        decreases lines.len() - next,
    {
        let ghost collected = line_views(code@);
        code.push(lines[next].clone());
        assert(rest[next - opening - 1] == lines@[next as int]@);
        assert(line_views(code@) =~= collected.push(lines@[next as int]@));
        next += 1;
        assert(line_views(code@) =~= rest.take(next - opening - 1));
    }
    proof {
        lemma_first_match(rest, is_closing_fence(), next - opening - 1);
    }
    Document::from_lines(code)
}

/// The code of the reply as text: the lines of its first code block, joined by
/// single line feeds.
pub fn extract_code_from_response(response: &str) -> (code: String)
    ensures
        code@ == join_lines(code_block(split_lines(response@))),
{
    extract_code_block(&Document::from_text(response)).to_text()
}

/// A reply in which no line can open a code block has no code.
pub proof fn lemma_no_fence_no_code(reply: Seq<Seq<char>>)
    requires
        forall|k: int| 0 <= k < reply.len() ==> !is_opening_fence()(reply[k]),
    ensures
        code_block(reply) == Seq::<Seq<char>>::empty(),
{
    lemma_first_match(reply, is_opening_fence(), reply.len() as int);
}

/// Wrapping and extracting gives the wrapped lines back: where a reply is
/// made of lines `before` that cannot open a block, an opening fence, the lines
/// `body`, none of which closes a block, a closing fence and any lines
/// `after`, its code block is `body`.
pub proof fn lemma_extract_wrapped(
    before: Seq<Seq<char>>,
    opening: Seq<char>,
    body: Seq<Seq<char>>,
    closing: Seq<char>,
    after: Seq<Seq<char>>,
)
    requires
        forall|k: int| 0 <= k < before.len() ==> !is_opening_fence()(before[k]),
        is_opening_fence()(opening),
        forall|k: int| 0 <= k < body.len() ==> !is_closing_fence()(body[k]),
        is_closing_fence()(closing),
    ensures
        code_block(before + seq![opening] + body + seq![closing] + after) == body,
{
    let reply = before + seq![opening] + body + seq![closing] + after;
    lemma_first_match(reply, is_opening_fence(), before.len() as int);
    let rest = reply.skip(before.len() as int + 1);
    assert(rest =~= body + seq![closing] + after);
    lemma_first_match(rest, is_closing_fence(), body.len() as int);
    assert(rest.take(body.len() as int) =~= body);
}

/// A block that is never closed runs to the end of the reply: where a reply
/// is made of lines `before` that cannot open a block, an opening fence and
/// the lines `body`, none of which closes a block, its code block is `body`.
pub proof fn lemma_extract_unclosed(
    before: Seq<Seq<char>>,
    opening: Seq<char>,
    body: Seq<Seq<char>>,
)
    requires
        forall|k: int| 0 <= k < before.len() ==> !is_opening_fence()(before[k]),
        is_opening_fence()(opening),
        forall|k: int| 0 <= k < body.len() ==> !is_closing_fence()(body[k]),
    ensures
        code_block(before + seq![opening] + body) == body,
{
    let reply = before + seq![opening] + body;
    lemma_first_match(reply, is_opening_fence(), before.len() as int);
    let rest = reply.skip(before.len() as int + 1);
    assert(rest =~= body);
    lemma_first_match(rest, is_closing_fence(), body.len() as int);
    assert(rest.take(body.len() as int) =~= body);
}

} // verus!
