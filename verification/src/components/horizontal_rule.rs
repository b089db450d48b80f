//! [`HorizontalRule`] — a Markdown `---` thematic break: a 1-pt hairline in
//! the `border` colour, matching Obsidian's separator style.

use vstd::prelude::*;

verus! {

/// An Obsidian-style horizontal rule.
#[derive(Clone, Copy, Debug)]
pub struct HorizontalRule;

} // verus!
