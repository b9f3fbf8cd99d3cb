//! Line-level comparison of an original document with a candidate: the merged
//! document and the log of changes, under two merge strategies.

use crate::document::Document;
use crate::lines::{join_lines, line_views, split_lines};
use vstd::prelude::*;

verus! {

/// What a change does to a line.
#[derive(Debug, Clone, Copy, PartialEq, Eq, Structural)]
pub enum ChangeType {
    /// The candidate has a line where the original has none.
    Insert,
    /// The original has a line where the candidate has none.
    Delete,
    /// Both have a line at the position, and the two differ.
    Modify,
}

/// One recorded edit.
#[derive(Debug, Clone, PartialEq, Eq)]
pub struct Change {
    /// What the change does.
    pub change_type: ChangeType,
    /// The 1-based position of the line: in the original for `Delete` and
    /// `Modify`, in the candidate for `Insert`.
    pub line_number: usize,
    /// The new text for `Insert` and `Modify`, the removed text for `Delete`.
    pub content: String,
}

/// A change as a mathematical value.
pub struct ChangeRecord {
    pub kind: ChangeType,
    pub line_number: nat,
    pub content: Seq<char>,
}

impl View for Change {
    type V = ChangeRecord;

    open spec fn view(&self) -> ChangeRecord {
        ChangeRecord {
            kind: self.change_type,
            line_number: self.line_number as nat,
            content: self.content@,
        }
    }
}

impl Change {
    /// A change is well formed when its line number is a 1-based position.
    pub open spec fn wf(&self) -> bool {
        self.line_number >= 1
    }
}

/// The views of the given changes, in their order.
pub open spec fn change_views(changes: Seq<Change>) -> Seq<ChangeRecord> {
    changes.map_values(|change: Change| change@)
}

/// The two ways of merging a candidate into an original.
#[derive(Debug, Clone, Copy, PartialEq, Eq, Structural)]
pub enum Strategy {
    /// Line-for-line overlay of the candidate on the original.
    PositionalMerge,
    /// The candidate replaces the original as a whole.
    FullReplace,
}

/// The merged document together with the log of changes, in the order in
/// which they were found.
#[derive(Debug, Clone, PartialEq, Eq)]
pub struct MergeResult {
    /// The merged document.
    pub merged: Document,
    /// Modifications first, then insertions, then deletions.
    pub changes: Vec<Change>,
}

/// The smaller of the two numbers.
pub open spec fn smaller(a: int, b: int) -> int {
    if a <= b {
        a
    } else {
        b
    }
}

/// The larger of the two numbers.
pub open spec fn larger(a: int, b: int) -> int {
    if a >= b {
        a
    } else {
        b
    }
}

/// The positions `0, 1, .., count - 1`.
pub open spec fn positions(count: int) -> Seq<int> {
    Seq::new(count as nat, |i: int| i)
}

/// Whether the two documents have different lines at a position.
pub open spec fn differs(original: Seq<Seq<char>>, candidate: Seq<Seq<char>>) -> spec_fn(int) -> bool {
    |i: int| original[i] != candidate[i]
}

/// The record of a modified line at a 0-based position of the candidate.
pub open spec fn modification(candidate: Seq<Seq<char>>) -> spec_fn(int) -> ChangeRecord {
    |i: int|
        ChangeRecord { kind: ChangeType::Modify, line_number: (i + 1) as nat, content: candidate[i] }
}

/// The modifications among the first `count` positions: one `Modify` for each
/// position at which the two lines differ, in increasing order of position,
/// with the candidate's line as content.
pub open spec fn modifications_within(
    original: Seq<Seq<char>>,
    candidate: Seq<Seq<char>>,
    count: int,
) -> Seq<ChangeRecord> {
    positions(count).filter(differs(original, candidate)).map_values(modification(candidate))
}

/// The modifications: those among the positions that both documents have.
pub open spec fn modifications(original: Seq<Seq<char>>, candidate: Seq<Seq<char>>) -> Seq<
    ChangeRecord,
> {
    modifications_within(original, candidate, smaller(original.len() as int, candidate.len() as int))
}

/// The first `count` insertions: one `Insert` for each candidate line beyond
/// the original's length, numbered by its position in the candidate.
pub open spec fn insertions_within(
    original: Seq<Seq<char>>,
    candidate: Seq<Seq<char>>,
    count: int,
) -> Seq<ChangeRecord> {
    Seq::new(
        count as nat,
        |k: int|
            ChangeRecord {
                kind: ChangeType::Insert,
                line_number: (original.len() + k + 1) as nat,
                content: candidate[original.len() + k],
            },
    )
}

/// The insertions: one for every candidate line beyond the original's length.
pub open spec fn insertions(original: Seq<Seq<char>>, candidate: Seq<Seq<char>>) -> Seq<
    ChangeRecord,
> {
    insertions_within(original, candidate, larger(candidate.len() - original.len(), 0))
}

/// The first `count` deletions: one `Delete` for each original line beyond
/// the candidate's length, numbered by its position in the original.
pub open spec fn deletions_within(
    original: Seq<Seq<char>>,
    candidate: Seq<Seq<char>>,
    count: int,
) -> Seq<ChangeRecord> {
    Seq::new(
        count as nat,
        |k: int|
            ChangeRecord {
                kind: ChangeType::Delete,
                line_number: (candidate.len() + k + 1) as nat,
                content: original[candidate.len() + k],
            },
    )
}

/// The deletions: one for every original line beyond the candidate's length.
pub open spec fn deletions(original: Seq<Seq<char>>, candidate: Seq<Seq<char>>) -> Seq<
    ChangeRecord,
> {
    deletions_within(original, candidate, larger(original.len() - candidate.len(), 0))
}

/// The log of changes between the two documents: the modifications, then the
/// insertions, then the deletions. Both strategies record this log.
pub open spec fn change_log(original: Seq<Seq<char>>, candidate: Seq<Seq<char>>) -> Seq<
    ChangeRecord,
> {
    modifications(original, candidate) + insertions(original, candidate) + deletions(
        original,
        candidate,
    )
}

/// The candidate laid over the original, line for line: at each position the
/// candidate's line where it has one, else the original's. Lines that only the
/// original has stay in place.
pub open spec fn overlay(original: Seq<Seq<char>>, candidate: Seq<Seq<char>>) -> Seq<Seq<char>> {
    Seq::new(
        larger(original.len() as int, candidate.len() as int) as nat,
        |i: int|
            if i < candidate.len() {
                candidate[i]
            } else {
                original[i]
            },
    )
}

/// The strategy for the given line counts: the candidate replaces the
/// original when the original is empty or the candidate has more than half
/// as many lines as the original.
pub open spec fn strategy_for(original_count: nat, candidate_count: nat) -> Strategy {
    if original_count == 0 || 2 * candidate_count > original_count {
        Strategy::FullReplace
    } else {
        Strategy::PositionalMerge
    }
}

/// The merged document under the strategy that the line counts select.
pub open spec fn merged_lines(original: Seq<Seq<char>>, candidate: Seq<Seq<char>>) -> Seq<
    Seq<char>,
> {
    match strategy_for(original.len(), candidate.len()) {
        Strategy::FullReplace => candidate,
        Strategy::PositionalMerge => overlay(original, candidate),
    }
}

/// Selects the merge strategy from the two line counts.
pub fn choose_strategy(original_count: usize, candidate_count: usize) -> (strategy: Strategy)
    ensures
        strategy == strategy_for(original_count as nat, candidate_count as nat),
{
    if original_count == 0 || candidate_count > original_count / 2 {
        Strategy::FullReplace
    } else {
        Strategy::PositionalMerge
    }
}

/// Extending the range of positions by one adds a modification exactly when
/// the two lines at the new position differ.
proof fn lemma_modifications_step(original: Seq<Seq<char>>, candidate: Seq<Seq<char>>, i: int)
    requires
        0 <= i,
    ensures
        modifications_within(original, candidate, i + 1) == if original[i] != candidate[i] {
            modifications_within(original, candidate, i).push(modification(candidate)(i))
        } else {
            modifications_within(original, candidate, i)
        },
{
    let pred = differs(original, candidate);
    assert(positions(i + 1) =~= positions(i).push(i));
    positions(i).lemma_filter_push(i, pred);
    if original[i] != candidate[i] {
        assert(positions(i).filter(pred).push(i).map_values(modification(candidate))
            =~= positions(i).filter(pred).map_values(modification(candidate)).push(
            modification(candidate)(i),
        ));
    }
}

/// Appends to `changes` the modifications between the two documents.
fn push_modifications(changes: &mut Vec<Change>, original: &Vec<String>, candidate: &Vec<String>)
    ensures
        change_views(final(changes)@) == change_views(old(changes)@) + modifications(
            line_views(original@),
            line_views(candidate@),
        ),
{
    let ghost o = line_views(original@);
    let ghost c = line_views(candidate@);
    let ghost before = change_views(changes@);
    let overlap: usize = if original.len() <= candidate.len() {
        original.len()
    } else {
        candidate.len()
    };
    let mut i: usize = 0;
    proof {
        assert(positions(0).filter(differs(o, c)) =~= Seq::<int>::empty()) by {
            reveal(Seq::filter);
        }
        assert(change_views(changes@) =~= before + modifications_within(o, c, 0));
    }
    while i < overlap
        invariant
            i <= overlap,
            overlap <= original.len(),
            overlap <= candidate.len(),
            o == line_views(original@),
            c == line_views(candidate@),
            change_views(changes@) == before + modifications_within(o, c, i as int),
        decreases overlap - i,
    {
        proof {
            lemma_modifications_step(o, c, i as int);
        }
        let ghost logged = change_views(changes@);
        if original[i] != candidate[i] {
            let change = Change {
                change_type: ChangeType::Modify,
                line_number: i + 1,
                content: candidate[i].clone(),
            };
            changes.push(change);
            assert(change_views(changes@) =~= logged.push(change@));
            assert(change@ == modification(c)(i as int));
            assert(before + modifications_within(o, c, i as int).push(change@) =~= (before
                + modifications_within(o, c, i as int)).push(change@));
        }
        i += 1;
    }
}

/// Appends to `changes` the insertions between the two documents.
fn push_insertions(changes: &mut Vec<Change>, original: &Vec<String>, candidate: &Vec<String>)
    ensures
        change_views(final(changes)@) == change_views(old(changes)@) + insertions(
            line_views(original@),
            line_views(candidate@),
        ),
{
    let ghost o = line_views(original@);
    let ghost c = line_views(candidate@);
    let ghost before = change_views(changes@);
    let mut i: usize = original.len();
    assert(change_views(changes@) =~= before + insertions_within(o, c, 0));
    while i < candidate.len()
        invariant
            original.len() <= i,
            i == original.len() || i <= candidate.len(),
            o == line_views(original@),
            c == line_views(candidate@),
            change_views(changes@) == before + insertions_within(o, c, i - original.len()),
        decreases candidate.len() - i,
    {
        let ghost logged = change_views(changes@);
        let change = Change {
            change_type: ChangeType::Insert,
            line_number: i + 1,
            content: candidate[i].clone(),
        };
        changes.push(change);
        assert(change_views(changes@) =~= logged.push(change@));
        assert(before + insertions_within(o, c, i - original.len()).push(change@) =~= before
            + insertions_within(o, c, i + 1 - original.len()));
        i += 1;
    }
    assert(i - original.len() == larger(c.len() - o.len(), 0));
}

/// Appends to `changes` the deletions between the two documents.
fn push_deletions(changes: &mut Vec<Change>, original: &Vec<String>, candidate: &Vec<String>)
    ensures
        change_views(final(changes)@) == change_views(old(changes)@) + deletions(
            line_views(original@),
            line_views(candidate@),
        ),
{
    let ghost o = line_views(original@);
    let ghost c = line_views(candidate@);
    let ghost before = change_views(changes@);
    let mut i: usize = candidate.len();
    assert(change_views(changes@) =~= before + deletions_within(o, c, 0));
    while i < original.len()
        invariant
            candidate.len() <= i,
            i == candidate.len() || i <= original.len(),
            o == line_views(original@),
            c == line_views(candidate@),
            change_views(changes@) == before + deletions_within(o, c, i - candidate.len()),
        decreases original.len() - i,
    {
        let ghost logged = change_views(changes@);
        let change = Change {
            change_type: ChangeType::Delete,
            line_number: i + 1,
            content: original[i].clone(),
        };
        changes.push(change);
        assert(change_views(changes@) =~= logged.push(change@));
        assert(before + deletions_within(o, c, i - candidate.len()).push(change@) =~= before
            + deletions_within(o, c, i + 1 - candidate.len()));
        i += 1;
    }
    assert(i - candidate.len() == larger(o.len() - c.len(), 0));
}

/// Every record of the log carries a 1-based line number.
pub proof fn lemma_change_log_numbers(original: Seq<Seq<char>>, candidate: Seq<Seq<char>>)
    ensures
        forall|k: int|
            0 <= k < change_log(original, candidate).len() ==> (#[trigger] change_log(
                original,
                candidate,
            )[k]).line_number >= 1,
{
    let count = smaller(original.len() as int, candidate.len() as int);
    let found = positions(count).filter(differs(original, candidate));
    assert forall|k: int| 0 <= k < found.len() implies found[k] >= 0 by {
        assert(found.contains(found[k]));
        positions(count).lemma_filter_contains_rev(differs(original, candidate), found[k]);
    }
}

/// A copy of the given lines.
fn copy_lines(lines: &Vec<String>) -> (copy: Vec<String>)
    ensures
        line_views(copy@) == line_views(lines@),
        copy.len() == lines.len(),
        forall|k: int| 0 <= k < lines.len() ==> copy@[k]@ == lines@[k]@,
{
    let mut copy: Vec<String> = Vec::new();
    let mut i: usize = 0;
    while i < lines.len()
        invariant
            i <= lines.len(),
            copy.len() == i,
            forall|k: int| 0 <= k < i ==> copy@[k]@ == lines@[k]@,
        decreases lines.len() - i,
    {
        copy.push(lines[i].clone());
        i += 1;
    }
    assert(line_views(copy@) =~= line_views(lines@));
    copy
}

/// The candidate's lines laid over the original's: a copy of the original in
/// which every differing line that both have is overwritten by the
/// candidate's, followed by the lines that only the candidate has.
fn overlay_lines(original: &Vec<String>, candidate: &Vec<String>) -> (updated: Vec<String>)
    ensures
        line_views(updated@) == overlay(line_views(original@), line_views(candidate@)),
{
    let ghost o = line_views(original@);
    let ghost c = line_views(candidate@);
    let mut updated = copy_lines(original);
    let overlap: usize = if original.len() <= candidate.len() {
        original.len()
    } else {
        candidate.len()
    };
    let mut i: usize = 0;
    while i < overlap
        invariant
            i <= overlap,
            overlap <= original.len(),
            overlap <= candidate.len(),
            o == line_views(original@),
            c == line_views(candidate@),
            updated.len() == original.len(),
            forall|k: int| 0 <= k < i ==> updated@[k]@ == c[k],
            forall|k: int| i <= k < original.len() ==> updated@[k]@ == o[k],
        decreases overlap - i,
    {
        assert(o[i as int] == original@[i as int]@ && c[i as int] == candidate@[i as int]@);
        if original[i] != candidate[i] {
            updated.set(i, candidate[i].clone());
        }
        i += 1;
    }
    let mut j: usize = original.len();
    while j < candidate.len()
        invariant
            overlap <= original.len(),
            overlap <= candidate.len(),
            original.len() <= j,
            j == original.len() || j <= candidate.len(),
            o == line_views(original@),
            c == line_views(candidate@),
            updated.len() == j,
            forall|k: int| 0 <= k < overlap ==> updated@[k]@ == c[k],
            forall|k: int| overlap <= k < original.len() ==> updated@[k]@ == o[k],
            forall|k: int| original.len() <= k < j ==> updated@[k]@ == c[k],
        decreases candidate.len() - j,
    {
        assert(c[j as int] == candidate@[j as int]@);
        updated.push(candidate[j].clone());
        j += 1;
    }
    assert(line_views(updated@) =~= overlay(o, c));
    updated
}

/// Merges the candidate into the original line for line.
///
/// The merged document starts as the original; every line that both have and
/// that differs is overwritten by the candidate's, and the lines that only the
/// candidate has are appended. Lines that only the original has are logged as
/// deleted and stay in the merged document.
pub fn positional_merge(original: &Document, candidate: &Document) -> (result: MergeResult)
    ensures
        result.merged@ == overlay(original@, candidate@),
        result.merged@.len() == larger(original@.len() as int, candidate@.len() as int),
        change_views(result.changes@) == change_log(original@, candidate@),
        forall|k: int| 0 <= k < result.changes.len() ==> result.changes[k].wf(),
{
    let mut changes: Vec<Change> = Vec::new();
    assert(change_views(changes@) =~= Seq::<ChangeRecord>::empty());
    push_modifications(&mut changes, original.lines(), candidate.lines());
    push_insertions(&mut changes, original.lines(), candidate.lines());
    push_deletions(&mut changes, original.lines(), candidate.lines());
    assert(change_views(changes@) =~= change_log(original@, candidate@));
    proof {
        lemma_change_log_numbers(original@, candidate@);
        assert forall|k: int| 0 <= k < changes.len() implies changes[k].wf() by {
            assert(change_views(changes@)[k] == changes[k]@);
        }
    }
    let merged = Document::from_lines(overlay_lines(original.lines(), candidate.lines()));
    MergeResult { merged, changes }
}

/// Replaces the original by the candidate as a whole.
///
/// Walks the candidate once: a line that differs from the original's line at
/// its position is logged as modified, a line beyond the original's length as
/// inserted. The original's lines beyond the candidate's length are logged as
/// deleted. The merged document is the candidate, whatever the log holds.
pub fn full_file_diff(original: &Document, candidate: &Document) -> (result: MergeResult)
    ensures
        result.merged@ == candidate@,
        change_views(result.changes@) == change_log(original@, candidate@),
        forall|k: int| 0 <= k < result.changes.len() ==> result.changes[k].wf(),
{
    let old_lines = original.lines();
    let new_lines = candidate.lines();
    let ghost o = original@;
    let ghost c = candidate@;
    let mut changes: Vec<Change> = Vec::new();
    let mut i: usize = 0;
    proof {
        assert(positions(0).filter(differs(o, c)) =~= Seq::<int>::empty()) by {
            reveal(Seq::filter);
        }
        assert(change_views(changes@) =~= modifications_within(o, c, 0) + insertions_within(
            o,
            c,
            0,
        ));
    }
    while i < new_lines.len()
        invariant
            i <= new_lines.len(),
            o == line_views(old_lines@),
            c == line_views(new_lines@),
            change_views(changes@) == modifications_within(
                o,
                c,
                smaller(i as int, o.len() as int),
            ) + insertions_within(o, c, larger(i - o.len(), 0)),
        decreases new_lines.len() - i,
    {
        let ghost logged = change_views(changes@);
        let ghost modified = modifications_within(o, c, smaller(i as int, o.len() as int));
        let ghost inserted = insertions_within(o, c, larger(i - o.len(), 0));
        if i < old_lines.len() {
            proof {
                lemma_modifications_step(o, c, i as int);
            }
            if new_lines[i] != old_lines[i] {
                let change = Change {
                    change_type: ChangeType::Modify,
                    line_number: i + 1,
                    content: new_lines[i].clone(),
                };
                changes.push(change);
                assert(change_views(changes@) =~= logged.push(change@));
                assert(change@ == modification(c)(i as int));
                assert((modified + inserted).push(change@) =~= modified.push(change@) + inserted);
            }
        } else {
            let change = Change {
                change_type: ChangeType::Insert,
                line_number: i + 1,
                content: new_lines[i].clone(),
            };
            changes.push(change);
            assert(change_views(changes@) =~= logged.push(change@));
            assert((modified + inserted).push(change@) =~= modified + insertions_within(
                o,
                c,
                i + 1 - o.len(),
            ));
        }
        i += 1;
    }
    push_deletions(&mut changes, old_lines, new_lines);
    proof {
        lemma_change_log_numbers(o, c);
        assert forall|k: int| 0 <= k < changes.len() implies changes[k].wf() by {
            assert(change_views(changes@)[k] == changes[k]@);
        }
    }
    let merged = Document::from_lines(copy_lines(new_lines));
    MergeResult { merged, changes }
}

/// Merges the candidate into the original under the strategy that their line
/// counts select.
pub fn merge_documents(original: &Document, candidate: &Document) -> (result: MergeResult)
    ensures
        result.merged@ == merged_lines(original@, candidate@),
        change_views(result.changes@) == change_log(original@, candidate@),
        forall|k: int| 0 <= k < result.changes.len() ==> result.changes[k].wf(),
{
    match choose_strategy(original.line_count(), candidate.line_count()) {
        Strategy::FullReplace => full_file_diff(original, candidate),
        Strategy::PositionalMerge => positional_merge(original, candidate),
    }
}

/// Merges the text `new` into the text `original`: both are split into
/// lines and merged as documents.
pub fn smart_merge(original: &str, new: &str) -> (result: MergeResult)
    ensures
        result.merged@ == merged_lines(split_lines(original@), split_lines(new@)),
        change_views(result.changes@) == change_log(split_lines(original@), split_lines(new@)),
        forall|k: int| 0 <= k < result.changes.len() ==> result.changes[k].wf(),
{
    let original_document = Document::from_text(original);
    let candidate = Document::from_text(new);
    merge_documents(&original_document, &candidate)
}

impl MergeResult {
    /// The text of the merged document: its lines joined by single line feeds.
    pub fn final_text(&self) -> (text: String)
        ensures
            text@ == join_lines(self.merged@),
    {
        self.merged.to_text()
    }
}

/// A document merged line for line with itself is unchanged, and the log of
/// changes is empty.
pub proof fn lemma_identical_documents(document: Seq<Seq<char>>)
    ensures
        change_log(document, document) == Seq::<ChangeRecord>::empty(),
        overlay(document, document) == document,
{
    let count = document.len() as int;
    let found = positions(count).filter(differs(document, document));
    if found.len() > 0 {
        positions(count).lemma_filter_pred(differs(document, document), 0);
    }
    assert(change_log(document, document) =~= Seq::<ChangeRecord>::empty());
    assert(overlay(document, document) =~= document);
}

/// The line-for-line merge has as many lines as the longer of the two
/// documents: lines that only the original has are not removed.
pub proof fn lemma_overlay_len(original: Seq<Seq<char>>, candidate: Seq<Seq<char>>)
    ensures
        overlay(original, candidate).len() == larger(
            original.len() as int,
            candidate.len() as int,
        ),
        overlay(original, candidate).len() >= original.len(),
        overlay(original, candidate).len() >= candidate.len(),
{
}

/// The strategy depends on the two line counts alone: two pairs of documents
/// with the same line counts are merged under the same strategy.
pub proof fn lemma_strategy_by_counts(
    original: Seq<Seq<char>>,
    candidate: Seq<Seq<char>>,
    other_original: Seq<Seq<char>>,
    other_candidate: Seq<Seq<char>>,
)
    requires
        original.len() == other_original.len(),
        candidate.len() == other_candidate.len(),
    ensures
        strategy_for(original.len(), candidate.len()) == strategy_for(
            other_original.len(),
            other_candidate.len(),
        ),
{
}

/// Under full replacement the merged document is the candidate, whatever the
/// original holds and whatever the log records.
pub proof fn lemma_full_replace_is_candidate(original: Seq<Seq<char>>, candidate: Seq<Seq<char>>)
    requires
        strategy_for(original.len(), candidate.len()) == Strategy::FullReplace,
    ensures
        merged_lines(original, candidate) == candidate,
{
}

/// The merged document never has fewer lines than the candidate, and under the
/// line-for-line merge it has as many as the original.
pub proof fn lemma_merged_len(original: Seq<Seq<char>>, candidate: Seq<Seq<char>>)
    ensures
        merged_lines(original, candidate).len() >= candidate.len(),
        strategy_for(original.len(), candidate.len()) == Strategy::PositionalMerge
            ==> merged_lines(original, candidate).len() == original.len(),
{
}

} // verus!
