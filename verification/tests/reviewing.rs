use reconcile::diff::{merge_documents, Change, ChangeType};
use reconcile::document::Document;
use reconcile::review::{accepts, decide, reconcile, render_change, render_changes, ReviewAction};

fn doc(lines: &[&str]) -> Document {
    Document::from_lines(lines.iter().map(|line| line.to_string()).collect())
}

fn change(change_type: ChangeType, line_number: usize, content: &str) -> Change {
    Change { change_type, line_number, content: content.to_string() }
}

#[test]
fn each_kind_has_its_own_marker() {
    assert_eq!(render_change(&change(ChangeType::Insert, 3, "c")), "\x1b[32m+ 3:c\x1b[0m");
    assert_eq!(render_change(&change(ChangeType::Delete, 10, "old")), "\x1b[31m- 10:old\x1b[0m");
    assert_eq!(render_change(&change(ChangeType::Modify, 2, "x")), "\x1b[33m~ 2:x\x1b[0m");
    assert_eq!(render_change(&change(ChangeType::Modify, 1, "")), "\x1b[33m~ 1:\x1b[0m");
}

#[test]
fn line_numbers_are_written_in_decimal() {
    for n in [1usize, 9, 10, 11, 99, 100, 101, 1234567890, usize::MAX] {
        let line = render_change(&change(ChangeType::Insert, n, "t"));
        assert_eq!(line, format!("\x1b[32m+ {}:t\x1b[0m", n));
    }
}

#[test]
fn changes_are_rendered_in_the_order_of_the_log() {
    let log = vec![
        change(ChangeType::Modify, 2, "two"),
        change(ChangeType::Insert, 5, "five"),
        change(ChangeType::Delete, 7, "seven"),
    ];
    assert_eq!(
        render_changes(&log),
        vec!["\x1b[33m~ 2:two\x1b[0m", "\x1b[32m+ 5:five\x1b[0m", "\x1b[31m- 7:seven\x1b[0m"]
    );
    assert!(render_changes(&Vec::new()).is_empty());
}

#[test]
fn only_the_letter_y_accepts() {
    for yes in ["y", "Y", "y\n", "Y\r\n", "  y  ", "\ty\n", "\u{a0}y\u{3000}"] {
        assert!(accepts(yes), "{:?}", yes);
        assert_eq!(yes.trim().to_lowercase() == "y", accepts(yes));
    }
    for no in ["n", "N", "", "\n", "yes", "yy", "y y", "no", "ye", " ", "\u{ff59}", "y.", "1"] {
        assert!(!accepts(no), "{:?}", no);
        assert_eq!(no.trim().to_lowercase() == "y", accepts(no));
    }
}

#[test]
fn declining_writes_nothing() {
    let result = merge_documents(&doc(&["a", "b", "c"]), &doc(&["a", "x", "c"]));
    assert_eq!(decide(&result, "n"), ReviewAction::Discard);
    assert_eq!(decide(&result, "n\n"), ReviewAction::Discard);
    assert_eq!(decide(&result, "maybe\n"), ReviewAction::Discard);
    assert_eq!(decide(&result, ""), ReviewAction::Discard);
}

#[test]
fn accepting_writes_the_merged_text() {
    let result = merge_documents(&doc(&["a", "b", "c"]), &doc(&["a", "x", "c"]));
    assert_eq!(decide(&result, "y\n"), ReviewAction::Apply("a\nx\nc".to_string()));
    assert_eq!(decide(&result, "Y"), ReviewAction::Apply("a\nx\nc".to_string()));
}

#[test]
fn a_pass_from_reply_to_merge() {
    let original = "fn main() {\n    println!(\"hi\");\n}\n";
    let reply = "Here you go:\n```rust\nfn main() {\n    println!(\"hello\");\n}\n```\nDone.";
    let result = reconcile(original, reply);
    assert_eq!(result.changes, vec![change(ChangeType::Modify, 2, "    println!(\"hello\");")]);
    assert_eq!(result.final_text(), "fn main() {\n    println!(\"hello\");\n}");
}

#[test]
fn a_reply_without_code_proposes_to_delete_everything_and_removes_nothing() {
    let result = reconcile("a\nb", "I cannot help with that.");
    assert_eq!(
        result.changes,
        vec![change(ChangeType::Delete, 1, "a"), change(ChangeType::Delete, 2, "b")]
    );
    assert_eq!(result.final_text(), "a\nb");
}

#[test]
fn a_blank_line_at_the_end_of_the_block_is_not_proposed() {
    let result = reconcile("a", "```\na\n\n```");
    assert!(result.changes.is_empty());
    assert_eq!(result.final_text(), "a");
}
