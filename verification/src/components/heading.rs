//! [`Heading`] — a Markdown ATX heading (H1–H6) in Obsidian style.
//!
//! Each level has a distinct font size and top spacing, looked up by
//! [`Heading::level_index`]; H1/H2 get a bottom separator line, mirroring
//! Obsidian's default theme.

use vstd::prelude::*;

use crate::document::{Document, InlineSpan};
use crate::inline::{layout_inlines, span_links, span_runs, span_text, InlineLayout, Style};

verus! {

/// An Obsidian-style heading.
pub struct Heading<'src> {
    pub md: &'src Document,
    pub level: u8,
    pub content: InlineSpan,
}

impl<'src> Heading<'src> {
    /// Construct a heading.
    pub fn new(md: &'src Document, level: u8, content: InlineSpan) -> (heading: Self)
        ensures
            heading.md == md,
            heading.level == level,
            heading.content == content,
    {
        Heading { md, level, content }
    }

    /// The level, clamped to 1..=6.
    pub open spec fn clamped_level(self) -> int {
        if self.level < 1 {
            1
        } else if self.level > 6 {
            6
        } else {
            self.level as int
        }
    }

    /// Index into the per-level size and spacing tables: 0 for H1 … 5 for H6.
    pub fn level_index(&self) -> (i: usize)
        ensures
            i == self.clamped_level() - 1,
            i < 6,
    {
        let level = if self.level < 1 {
            1
        } else if self.level > 6 {
            6
        } else {
            self.level
        };
        (level - 1) as usize
    }

    /// H1 and H2 get a bottom separator rule.
    pub fn has_rule(&self) -> (b: bool)
        ensures
            b == (self.clamped_level() <= 2),
    {
        self.level_index() < 2
    }

    /// The heading's text, laid out in the heading's base style.
    pub fn layout(&self) -> (layout: InlineLayout)
        requires
            self.md.wf(),
            self.md.span_ok(self.content),
        ensures
            layout.text@ == span_text(
                self.md.inlines@,
                self.content.start as int,
                self.content.len as int,
            ),
            layout.run_views() == span_runs(
                self.md.inlines@,
                self.content.start as int,
                self.content.len as int,
                Style::spec_plain(),
            ),
            layout.link_views() == span_links(
                self.md.inlines@,
                self.content.start as int,
                self.content.len as int,
                0,
            ),
            layout.consistent(),
    {
        layout_inlines(self.md, self.content, Style::plain())
    }
}

} // verus!
