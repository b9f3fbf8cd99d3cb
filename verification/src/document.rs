//! Documents: text held as an ordered sequence of lines.

use crate::lines::{join_lines, line_views, lines_of, split_lines, text_of};
use vstd::prelude::*;

verus! {

/// An ordered sequence of lines. A document is never changed once it is made:
/// every operation on documents gives a new one.
#[derive(Debug, Clone, PartialEq, Eq)]
pub struct Document {
    lines: Vec<String>,
}

impl View for Document {
    type V = Seq<Seq<char>>;

    /// The lines of the document, each as its sequence of characters.
    closed spec fn view(&self) -> Seq<Seq<char>> {
        line_views(self.lines@)
    }
}

impl Document {
    /// The document without lines.
    pub fn empty() -> (document: Document)
        ensures
            document@ == Seq::<Seq<char>>::empty(),
    {
        let document = Document { lines: Vec::new() };
        assert(document@ =~= Seq::<Seq<char>>::empty());
        document
    }

    /// The document that holds the given lines, in their order.
    pub fn from_lines(lines: Vec<String>) -> (document: Document)
        ensures
            document@ == line_views(lines@),
    {
        Document { lines }
    }

    /// The document made by splitting `text` at its line boundaries.
    pub fn from_text(text: &str) -> (document: Document)
        ensures
            document@ == split_lines(text@),
    {
        Document { lines: lines_of(text) }
    }

    /// The lines of the document.
    pub fn lines(&self) -> (lines: &Vec<String>)
        ensures
            line_views(lines@) == self@,
    {
        &self.lines
    }

    /// The number of lines.
    pub fn line_count(&self) -> (count: usize)
        ensures
            count == self@.len(),
    {
        self.lines.len()
    }

    /// Whether the document has no lines.
    pub fn is_empty(&self) -> (empty: bool)
        ensures
            empty == (self@.len() == 0),
    {
        self.lines.len() == 0
    }

    /// The text of the document: its lines joined by single line feeds.
    pub fn to_text(&self) -> (text: String)
        ensures
            text@ == join_lines(self@),
    {
        text_of(&self.lines)
    }
}

} // verus!
