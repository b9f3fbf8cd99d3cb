use reconcile::diff::{
    choose_strategy, full_file_diff, merge_documents, positional_merge, smart_merge, Change,
    ChangeType, Strategy,
};
use reconcile::document::Document;

fn doc(lines: &[&str]) -> Document {
    Document::from_lines(lines.iter().map(|line| line.to_string()).collect())
}

fn change(change_type: ChangeType, line_number: usize, content: &str) -> Change {
    Change { change_type, line_number, content: content.to_string() }
}

#[test]
fn scenario_one_changed_line() {
    let original = doc(&["a", "b", "c"]);
    let candidate = doc(&["a", "x", "c"]);
    assert_eq!(choose_strategy(3, 3), Strategy::FullReplace);
    let result = merge_documents(&original, &candidate);
    assert_eq!(result.changes, vec![change(ChangeType::Modify, 2, "x")]);
    assert_eq!(result.merged, doc(&["a", "x", "c"]));
    assert_eq!(result.final_text(), "a\nx\nc");
    let positional = positional_merge(&original, &candidate);
    assert_eq!(positional.changes, vec![change(ChangeType::Modify, 2, "x")]);
    assert_eq!(positional.merged, doc(&["a", "x", "c"]));
}

#[test]
fn scenario_longer_candidate_replaces() {
    let original = doc(&["a", "b"]);
    let candidate = doc(&["a", "b", "c", "d"]);
    assert_eq!(choose_strategy(2, 4), Strategy::FullReplace);
    let result = merge_documents(&original, &candidate);
    assert_eq!(
        result.changes,
        vec![change(ChangeType::Insert, 3, "c"), change(ChangeType::Insert, 4, "d")]
    );
    assert_eq!(result.merged, doc(&["a", "b", "c", "d"]));
    assert_eq!(result.final_text(), "a\nb\nc\nd");
}

#[test]
fn scenario_short_candidate_keeps_original_tail() {
    let original = doc(&["1", "2", "3", "4", "5", "6", "7", "8", "9", "10"]);
    let candidate = doc(&["1", "2", "3"]);
    assert_eq!(choose_strategy(10, 3), Strategy::PositionalMerge);
    let result = merge_documents(&original, &candidate);
    let expected: Vec<Change> = (4..=10)
        .map(|n: usize| change(ChangeType::Delete, n, &n.to_string()))
        .collect();
    assert_eq!(result.changes, expected);
    assert_eq!(result.merged.line_count(), 10);
    assert_eq!(result.merged, original);
}

#[test]
fn strategy_by_line_counts() {
    assert_eq!(choose_strategy(0, 0), Strategy::FullReplace);
    assert_eq!(choose_strategy(0, 5), Strategy::FullReplace);
    assert_eq!(choose_strategy(3, 3), Strategy::FullReplace);
    assert_eq!(choose_strategy(10, 6), Strategy::FullReplace);
    assert_eq!(choose_strategy(10, 5), Strategy::PositionalMerge);
    assert_eq!(choose_strategy(11, 5), Strategy::PositionalMerge);
    assert_eq!(choose_strategy(11, 6), Strategy::FullReplace);
    assert_eq!(choose_strategy(1, 0), Strategy::PositionalMerge);
    assert_eq!(choose_strategy(1, 1), Strategy::FullReplace);
    assert_eq!(choose_strategy(usize::MAX, usize::MAX), Strategy::FullReplace);
    assert_eq!(choose_strategy(usize::MAX, usize::MAX / 2), Strategy::PositionalMerge);
    assert_eq!(choose_strategy(usize::MAX, usize::MAX / 2 + 1), Strategy::FullReplace);
}

#[test]
fn positional_merge_of_equal_documents_changes_nothing() {
    let original = doc(&["alpha", "", "beta"]);
    let result = positional_merge(&original, &original.clone());
    assert!(result.changes.is_empty());
    assert_eq!(result.merged, original);
    assert_eq!(result.final_text(), "alpha\n\nbeta");
}

#[test]
fn positional_merge_has_the_longer_line_count() {
    let short = doc(&["a", "b"]);
    let long = doc(&["a", "x", "c", "d", "e"]);
    let grown = positional_merge(&short, &long);
    assert_eq!(grown.merged.line_count(), 5);
    assert_eq!(grown.merged, long);
    assert_eq!(
        grown.changes,
        vec![
            change(ChangeType::Modify, 2, "x"),
            change(ChangeType::Insert, 3, "c"),
            change(ChangeType::Insert, 4, "d"),
            change(ChangeType::Insert, 5, "e"),
        ]
    );
    let shrunk = positional_merge(&long, &short);
    assert_eq!(shrunk.merged.line_count(), 5);
    assert_eq!(shrunk.merged, doc(&["a", "b", "c", "d", "e"]));
    assert_eq!(
        shrunk.changes,
        vec![
            change(ChangeType::Modify, 2, "b"),
            change(ChangeType::Delete, 3, "c"),
            change(ChangeType::Delete, 4, "d"),
            change(ChangeType::Delete, 5, "e"),
        ]
    );
}

#[test]
fn full_replace_gives_the_candidate() {
    let original = doc(&["a", "b", "c", "d"]);
    let candidate = doc(&["a", "B", "c"]);
    let result = full_file_diff(&original, &candidate);
    assert_eq!(result.merged, candidate);
    assert_eq!(result.final_text(), "a\nB\nc");
    assert_eq!(
        result.changes,
        vec![change(ChangeType::Modify, 2, "B"), change(ChangeType::Delete, 4, "d")]
    );
}

#[test]
fn both_strategies_log_the_same_changes() {
    let original = doc(&["one", "two", "three", "four", "five"]);
    let candidate = doc(&["one", "2", "three"]);
    let positional = positional_merge(&original, &candidate);
    let replaced = full_file_diff(&original, &candidate);
    assert_eq!(positional.changes, replaced.changes);
    assert_eq!(positional.merged, doc(&["one", "2", "three", "four", "five"]));
    assert_eq!(replaced.merged, candidate);
}

#[test]
fn empty_documents_on_either_side() {
    let empty = Document::empty();
    let some = doc(&["x", "y"]);
    let both = merge_documents(&empty, &empty);
    assert!(both.changes.is_empty());
    assert!(both.merged.is_empty());
    assert_eq!(both.final_text(), "");

    let filled = merge_documents(&empty, &some);
    assert_eq!(
        filled.changes,
        vec![change(ChangeType::Insert, 1, "x"), change(ChangeType::Insert, 2, "y")]
    );
    assert_eq!(filled.merged, some);

    let emptied = merge_documents(&some, &empty);
    assert_eq!(
        emptied.changes,
        vec![change(ChangeType::Delete, 1, "x"), change(ChangeType::Delete, 2, "y")]
    );
    assert_eq!(emptied.merged, some);
    assert_eq!(emptied.final_text(), "x\ny");
}

#[test]
fn every_line_number_is_one_based() {
    let original = doc(&["a", "b", "c", "d", "e", "f"]);
    let candidate = doc(&["z", "b"]);
    for result in [
        positional_merge(&original, &candidate),
        full_file_diff(&original, &candidate),
        positional_merge(&candidate, &original),
        full_file_diff(&candidate, &original),
    ] {
        assert!(!result.changes.is_empty());
        assert!(result.changes.iter().all(|change| change.line_number >= 1));
    }
}

#[test]
fn smart_merge_splits_both_texts() {
    let result = smart_merge("a\nb\nc\n", "a\r\nx\r\nc");
    assert_eq!(result.changes, vec![change(ChangeType::Modify, 2, "x")]);
    assert_eq!(result.final_text(), "a\nx\nc");
    let kept = smart_merge("1\n2\n3\n4\n5", "one");
    assert_eq!(
        kept.changes,
        vec![
            change(ChangeType::Modify, 1, "one"),
            change(ChangeType::Delete, 2, "2"),
            change(ChangeType::Delete, 3, "3"),
            change(ChangeType::Delete, 4, "4"),
            change(ChangeType::Delete, 5, "5"),
        ]
    );
    assert_eq!(kept.final_text(), "one\n2\n3\n4\n5");
}
