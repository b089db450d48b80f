//! [`Blockquote`] — a Markdown blockquote in Obsidian style: its child
//! sections on a muted surface, with an accent bar at the left.

use vstd::prelude::*;

use crate::document::{Document, SectionRange};

verus! {

/// An Obsidian-style blockquote container.
pub struct Blockquote<'src> {
    pub md: &'src Document,
    pub children: SectionRange,
}

impl<'src> Blockquote<'src> {
    /// Construct a blockquote.
    pub fn new(md: &'src Document, children: SectionRange) -> (quote: Self)
        ensures
            quote.md == md,
            quote.children == children,
    {
        Blockquote { md, children }
    }
}

} // verus!
