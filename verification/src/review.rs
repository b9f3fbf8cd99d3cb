//! Review of a merge: the rendering of its change log for a reader, and the
//! decision that the reader's answer stands for.

use crate::diff::{
    change_log, change_views, merged_lines, smart_merge, Change, ChangeRecord, ChangeType,
    MergeResult,
};
use crate::extract::{code_block, extract_code_from_response};
use crate::lines::{join_lines, lemma_split_joined, split_lines, survives_joining};
use crate::numeral::{decimal, push_decimal};
use crate::text::{chars_of, trim, trimmed};
use vstd::prelude::*;

verus! {

/// What a rendered change starts with: the escape sequence that sets the
/// colour of its kind (green for an insertion, red for a deletion, yellow for
/// a modification), the sign of the kind and a space.
pub open spec fn marker(kind: ChangeType) -> Seq<char> {
    match kind {
        ChangeType::Insert => seq!['\u{1b}', '[', '3', '2', 'm', '+', ' '],
        ChangeType::Delete => seq!['\u{1b}', '[', '3', '1', 'm', '-', ' '],
        ChangeType::Modify => seq!['\u{1b}', '[', '3', '3', 'm', '~', ' '],
    }
}

/// What a rendered change ends with: the escape sequence that resets the
/// colour.
pub open spec fn reset() -> Seq<char> {
    seq!['\u{1b}', '[', '0', 'm']
}

/// The rendering of a change: marker, line number, a colon, the content, and
/// the reset.
pub open spec fn rendered(change: ChangeRecord) -> Seq<char> {
    marker(change.kind) + decimal(change.line_number) + seq![':'] + change.content + reset()
}

/// Whether an answer is affirmative: without the white space around it, it is
/// the letter y, in either case. Every other answer declines.
pub open spec fn is_affirmative(answer: Seq<char>) -> bool {
    trim(answer) == seq!['y'] || trim(answer) == seq!['Y']
}

/// What follows from the reader's answer.
#[derive(Debug, Clone, PartialEq, Eq)]
pub enum ReviewAction {
    /// The target is to be overwritten with this text.
    Apply(String),
    /// The target is to be left untouched.
    Discard,
}

/// The line that shows a change to the reader.
pub fn render_change(change: &Change) -> (line: String)
    ensures
        line@ == rendered(change@),
{
    let mut line = String::new();
    proof {
        reveal_strlit("\x1b[32m+ ");
        reveal_strlit("\x1b[31m- ");
        reveal_strlit("\x1b[33m~ ");
        reveal_strlit("\x1b[0m");
    }
    match change.change_type {
        ChangeType::Insert => line.append("\x1b[32m+ "),
        ChangeType::Delete => line.append("\x1b[31m- "),
        ChangeType::Modify => line.append("\x1b[33m~ "),
    }
    assert(line@ =~= marker(change.change_type));
    push_decimal(&mut line, change.line_number);
    line.push(':');
    line.append(change.content.as_str());
    line.append("\x1b[0m");
    assert(line@ =~= rendered(change@));
    line
}

/// The lines that show a change log to the reader, one per change, in the
/// order of the log.
pub fn render_changes(changes: &Vec<Change>) -> (lines: Vec<String>)
    ensures
        lines.len() == changes.len(),
        forall|k: int| 0 <= k < changes.len() ==> lines@[k]@ == rendered(changes@[k]@),
{
    let mut lines: Vec<String> = Vec::new();
    let mut i: usize = 0;
    while i < changes.len()
        invariant
            i <= changes.len(),
            lines.len() == i,
            forall|k: int| 0 <= k < i ==> lines@[k]@ == rendered(changes@[k]@),
        decreases changes.len() - i,
    {
        lines.push(render_change(&changes[i]));
        i += 1;
    }
    lines
}

/// Whether the answer is affirmative.
pub fn accepts(answer: &str) -> (accepted: bool)
    ensures
        accepted == is_affirmative(answer@),
{
    let kept = trimmed(answer);
    let chars = chars_of(kept.as_str());
    if chars.len() == 1 && (chars[0] == 'y' || chars[0] == 'Y') {
        assert(chars@ =~= seq![chars@[0]]);
        true
    } else {
        assert(seq!['y'].len() == 1 && seq!['y'][0] == 'y');
        assert(seq!['Y'].len() == 1 && seq!['Y'][0] == 'Y');
        false
    }
}

/// What follows from the reader's answer to a merge: on an affirmative answer
/// the target is to be overwritten with the text of the merged document, on
/// every other answer nothing is to be written.
pub fn decide(result: &MergeResult, answer: &str) -> (action: ReviewAction)
    ensures
        is_affirmative(answer@) ==> (action matches ReviewAction::Apply(text) && text@
            == join_lines(result.merged@)),
        !is_affirmative(answer@) ==> action == ReviewAction::Discard,
{
    if accepts(answer) {
        ReviewAction::Apply(result.final_text())
    } else {
        ReviewAction::Discard
    }
}

/// The candidate that a reply proposes: the text of its code block, split into
/// lines again.
pub open spec fn proposed_lines(response: Seq<char>) -> Seq<Seq<char>> {
    split_lines(join_lines(code_block(split_lines(response))))
}

/// One reconciliation pass: the code of the reply is extracted as text and
/// merged into the original text.
pub fn reconcile(original: &str, response: &str) -> (result: MergeResult)
    ensures
        result.merged@ == merged_lines(split_lines(original@), proposed_lines(response@)),
        change_views(result.changes@) == change_log(
            split_lines(original@),
            proposed_lines(response@),
        ),
        forall|k: int| 0 <= k < result.changes.len() ==> result.changes[k].wf(),
{
    let code = extract_code_from_response(response);
    smart_merge(original, code.as_str())
}

/// The candidate that a reply proposes is its code block, line for line,
/// where the lines of the block survive joining.
pub proof fn lemma_proposed_is_code_block(response: Seq<char>)
    requires
        survives_joining(code_block(split_lines(response))),
    ensures
        proposed_lines(response) == code_block(split_lines(response)),
{
    lemma_split_joined(code_block(split_lines(response)));
}

} // verus!
