use reconcile::document::Document;
use reconcile::lines::{lines_of, text_of};
use reconcile::text::{char_is_whitespace, chars_of};

fn std_lines(text: &str) -> Vec<String> {
    text.lines().map(|line| line.to_string()).collect()
}

#[test]
fn lines_are_split_as_the_standard_library_splits_them() {
    let samples = [
        "",
        "\n",
        "\r\n",
        "\r",
        "a",
        "a\n",
        "a\r\n",
        "a\r",
        "a\nb",
        "a\n\nb",
        "a\n\n",
        "\n\na",
        "a\r\nb\r\n",
        "a\r\r\nb",
        "a\rb\nc",
        "\r\n\r\n",
        "one\ntwo\r\nthree\n",
        "caf\u{e9}\n\u{4e16}\u{754c}\n",
        "tab\there\n  indented\n",
    ];
    for sample in samples {
        assert_eq!(lines_of(sample), std_lines(sample), "splitting {:?}", sample);
        assert_eq!(Document::from_text(sample).lines(), &std_lines(sample));
    }
}

#[test]
fn lines_are_joined_by_single_line_feeds() {
    let none: Vec<String> = Vec::new();
    assert_eq!(text_of(&none), "");
    assert_eq!(text_of(&vec!["a".to_string()]), "a");
    assert_eq!(text_of(&vec!["a".to_string(), "b".to_string()]), "a\nb");
    assert_eq!(text_of(&vec!["a".to_string(), "".to_string()]), "a\n");
    assert_eq!(text_of(&vec!["".to_string(), "".to_string(), "".to_string()]), "\n\n");
    let document = Document::from_text("x\ny\nz\n");
    assert_eq!(document.line_count(), 3);
    assert_eq!(document.to_text(), "x\ny\nz");
}

#[test]
fn the_final_line_feed_does_not_come_back() {
    assert_eq!(Document::from_text("a\nb\n").to_text(), "a\nb");
    assert_eq!(Document::from_text("a\nb").to_text(), "a\nb");
    assert_eq!(Document::from_text(&Document::from_text("a\nb").to_text()).to_text(), "a\nb");
}

#[test]
fn characters_come_out_in_order() {
    assert_eq!(chars_of(""), Vec::<char>::new());
    assert_eq!(chars_of("a\u{e9}\u{1f600}z"), vec!['a', '\u{e9}', '\u{1f600}', 'z']);
}

#[test]
fn white_space_is_what_the_standard_library_calls_white_space() {
    let mut code: u32 = 0;
    while code <= 0x10FFFF {
        if let Some(c) = char::from_u32(code) {
            assert_eq!(char_is_whitespace(c), c.is_whitespace(), "code point {:x}", code);
        }
        code += 1;
    }
}

#[test]
fn empty_document() {
    let document = Document::empty();
    assert!(document.is_empty());
    assert_eq!(document.line_count(), 0);
    assert_eq!(document.to_text(), "");
    assert_eq!(document, Document::from_text(""));
}
