use reconcile::document::Document;
use reconcile::extract::{closes_block, extract_code_block, extract_code_from_response, opens_block};

fn doc(lines: &[&str]) -> Document {
    Document::from_lines(lines.iter().map(|line| line.to_string()).collect())
}

fn lines_of(document: &Document) -> Vec<&str> {
    document.lines().iter().map(|line| line.as_str()).collect()
}

#[test]
fn reply_with_commentary_around_block() {
    let reply = "Here you go:\n```\nfoo\nbar\n```\nHope that helps";
    let code = extract_code_block(&Document::from_text(reply));
    assert_eq!(lines_of(&code), vec!["foo", "bar"]);
    assert_eq!(extract_code_from_response(reply), "foo\nbar");
}

#[test]
fn reply_without_fence_has_no_code() {
    let code = extract_code_block(&Document::from_text("just some prose\nand more prose"));
    assert!(code.is_empty());
    assert_eq!(code.line_count(), 0);
    assert_eq!(extract_code_from_response("just some prose\nand more prose"), "");
    assert_eq!(extract_code_from_response(""), "");
}

#[test]
fn fence_with_language_tag() {
    let reply = "```rust\nfn main() {}\n```";
    assert_eq!(extract_code_from_response(reply), "fn main() {}");
}

#[test]
fn block_without_closing_fence_runs_to_the_end() {
    let reply = "text\n```python\na = 1\nb = 2";
    let code = extract_code_block(&Document::from_text(reply));
    assert_eq!(lines_of(&code), vec!["a = 1", "b = 2"]);
}

#[test]
fn only_the_first_block_is_taken() {
    let reply = "```\none\n```\nbetween\n```\ntwo\n```";
    assert_eq!(extract_code_from_response(reply), "one");
}

#[test]
fn closing_fence_directly_after_opening_gives_no_lines() {
    let code = extract_code_block(&doc(&["```", "```", "after"]));
    assert!(code.is_empty());
}

#[test]
fn opening_fence_may_be_indented() {
    assert!(opens_block("```"));
    assert!(opens_block("```js"));
    assert!(opens_block("   ```"));
    assert!(opens_block("\t```rust"));
    assert!(!opens_block("``"));
    assert!(!opens_block("x```"));
    assert!(!opens_block(""));
    assert!(!opens_block("   "));
    let code = extract_code_block(&doc(&["intro", "  ```", "body", "```"]));
    assert_eq!(lines_of(&code), vec!["body"]);
}

#[test]
fn closing_fence_begins_the_line() {
    assert!(closes_block("```"));
    assert!(closes_block("```` more"));
    assert!(!closes_block(" ```"));
    assert!(!closes_block("``"));
    assert!(!closes_block(""));
    let code = extract_code_block(&doc(&["```", "a", "  ```", "b", "```", "c"]));
    assert_eq!(lines_of(&code), vec!["a", "  ```", "b"]);
}

#[test]
fn wrapped_document_comes_back_unchanged() {
    let body = doc(&["fn f() {", "    1", "}", "", "// end"]);
    let mut reply: Vec<String> = vec!["Sure, here it is.".to_string(), "```rust".to_string()];
    reply.extend(body.lines().iter().cloned());
    reply.push("```".to_string());
    reply.push("Anything else?".to_string());
    let code = extract_code_block(&Document::from_lines(reply));
    assert_eq!(code, body);
}
