//! [`Paragraph`] — a Markdown paragraph in Obsidian style.
//!
//! Inline elements (bold, italic, links, inline code) are laid out by the
//! shared [`append_inlines`](crate::inline::append_inlines); the widget
//! hit-tests the pointer against the layout's link ranges
//! ([`link_url_at`](crate::inline::link_url_at)) to make links clickable.

use vstd::prelude::*;

use crate::document::{Document, InlineSpan};
use crate::inline::{layout_inlines, span_links, span_runs, span_text, InlineLayout, Style};

verus! {

/// An Obsidian-style paragraph.
pub struct Paragraph<'src> {
    pub md: &'src Document,
    pub content: InlineSpan,
}

impl<'src> Paragraph<'src> {
    /// Construct a paragraph.
    pub fn new(md: &'src Document, content: InlineSpan) -> (paragraph: Self)
        ensures
            paragraph.md == md,
            paragraph.content == content,
    {
        Paragraph { md, content }
    }

    /// The paragraph's text, laid out in the prose style.
    pub fn layout(&self) -> (layout: InlineLayout)
        requires
            self.md.wf(),
            self.md.span_ok(self.content),
        ensures
            layout.text@ == span_text(
                self.md.inlines@,
                self.content.start as int,
                self.content.len as int,
            ),
            layout.run_views() == span_runs(
                self.md.inlines@,
                self.content.start as int,
                self.content.len as int,
                Style::spec_plain(),
            ),
            layout.link_views() == span_links(
                self.md.inlines@,
                self.content.start as int,
                self.content.len as int,
                0,
            ),
            layout.consistent(),
    {
        layout_inlines(self.md, self.content, Style::plain())
    }
}

} // verus!
