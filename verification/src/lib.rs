//! tektite — Obsidian-style Markdown rendering.
//!
//! A parsed [`Document`] is turned into one [`Block`] per section
//! ([`document_blocks`] for the top level, [`section_blocks`] for the direct
//! children of a container); each block type computes what its widget draws:
//! laid-out inline text with styles and clickable link ranges, list markers,
//! table cells, code text. [`Tokens`] holds the Obsidian colour palette and
//! its mapping onto the GUI's visuals slots.

pub mod components;
pub mod document;
pub mod inline;
pub mod tokens;

pub use components::{
    Blockquote, CellLayout, CodeBlock, CodeSource, Heading, HorizontalRule, ListEntry, OrderedList,
    Paragraph, RowLayout, Table, TableLayout, UnorderedList,
};
pub use document::{
    ColumnAlignment, Document, Inline, InlineSpan, LineRange, OrderedListDelimiter, PoolLine,
    Section, SectionRange,
};
pub use inline::{Face, InlineLayout, LinkRange, Run, RunKind, RunPaint, Style, Tint};
pub use tokens::{Color, TektiteExtras, Tokens, VisualSlots, WidgetSlots};

use vstd::prelude::*;

use crate::components::code_block::{code_lines_text, lines_text};
use crate::document::child_indices;

verus! {

/// A full Markdown document, rendered in Obsidian reading-view style.
pub struct MarkdownView<'src> {
    pub md: &'src Document,
}

impl<'src> MarkdownView<'src> {
    /// Construct a view for a parsed document.
    pub fn new(md: &'src Document) -> (view: Self)
        ensures
            view.md == md,
    {
        MarkdownView { md }
    }
}

/// What one section renders as.
pub enum Block<'src> {
    Heading(Heading<'src>),
    Paragraph(Paragraph<'src>),
    CodeBlock(CodeBlock<'src>),
    Blockquote(Blockquote<'src>),
    UnorderedList(UnorderedList<'src>),
    OrderedList(OrderedList<'src>),
    /// Child sections rendered in place (a list item met outside its list,
    /// a footnote definition).
    Sections(SectionRange),
    HorizontalRule(HorizontalRule),
    Table(Table<'src>),
    /// Raw HTML, shown verbatim in the muted monospace face.
    Html(String),
    /// Nothing (table rows and cells met outside their table).
    Nothing,
}

/// A code block's language label matches the section's info string.
pub open spec fn same_language(shown: Option<&str>, given: Option<String>) -> bool {
    match (shown, given) {
        (None, None) => true,
        (Some(a), Some(b)) => a@ == b@,
        _ => false,
    }
}

impl<'src> Block<'src> {
    /// The block renders section `s` of `md`.
    pub open spec fn renders(self, md: &'src Document, s: Section) -> bool {
        match s {
            Section::Heading { level, content } => self == Block::Heading(
                Heading { md, level, content },
            ),
            Section::Paragraph { content } => self == Block::Paragraph(Paragraph { md, content }),
            Section::CodeBlock { language, code } => (self matches Block::CodeBlock(c) && c.md == md
                && (c.source matches CodeSource::Slice(t) && t@ == code@) && same_language(
                c.language,
                language,
            )),
            Section::IndentedCode { code } => (self matches Block::CodeBlock(c) && c.md == md && (
            c.source matches CodeSource::Slice(t) && t@ == code@) && c.language is None),
            Section::CodeLines { language, lines } => (self matches Block::CodeBlock(c) && c.md
                == md && c.source == CodeSource::Lines(lines) && same_language(
                c.language,
                language,
            )),
            Section::Blockquote { children } => self == Block::Blockquote(
                Blockquote { md, children },
            ),
            Section::Alert { children } => self == Block::Blockquote(Blockquote { md, children }),
            Section::UnorderedList { tight, items } => self == Block::UnorderedList(
                UnorderedList { md, items, tight },
            ),
            Section::OrderedList { start, delimiter, tight, items } => self == Block::OrderedList(
                OrderedList { md, items, tight, start, delimiter },
            ),
            Section::ListItem { children } => self == Block::Sections(children),
            Section::FootnoteDefinition { children } => self == Block::Sections(children),
            Section::HorizontalRule => self == Block::HorizontalRule(HorizontalRule),
            Section::Table { rows, .. } => self == Block::Table(Table { md, rows }),
            Section::TableRow { .. } => self == Block::Nothing,
            Section::TableCell { .. } => self == Block::Nothing,
            Section::HtmlBlock { html } => (self matches Block::Html(h) && h@ == html@),
            Section::HtmlLines { lines } => (self matches Block::Html(h) && h@ == lines_text(
                md.lines@,
                lines.start as int,
                lines.len as int,
            )),
        }
    }
}

fn language_of<'src>(language: &'src Option<String>) -> (shown: Option<&'src str>)
    ensures
        same_language(shown, *language),
{
    match language {
        Some(l) => Some(l.as_str()),
        None => None,
    }
}

/// Decide what `section` of `md` renders as: each section kind dispatches to
/// its specialized widget.
pub fn block_for<'src>(md: &'src Document, section: &'src Section) -> (block: Block<'src>)
    requires
        md.section_refs_ok(*section),
    ensures
        block.renders(md, *section),
{
    match section {
        Section::Heading { level, content } => Block::Heading(Heading::new(md, *level, *content)),
        Section::Paragraph { content } => Block::Paragraph(Paragraph::new(md, *content)),
        Section::CodeBlock { language, code } => Block::CodeBlock(
            CodeBlock::new(md, language_of(language), code.as_str()),
        ),
        Section::IndentedCode { code } => Block::CodeBlock(
            CodeBlock::new(md, None, code.as_str()),
        ),
        Section::CodeLines { language, lines } => Block::CodeBlock(
            CodeBlock::from_lines(md, language_of(language), *lines),
        ),
        Section::Blockquote { children } => Block::Blockquote(Blockquote::new(md, *children)),
        Section::Alert { children } => Block::Blockquote(Blockquote::new(md, *children)),
        Section::UnorderedList { tight, items } => Block::UnorderedList(
            UnorderedList::new(md, *tight, *items),
        ),
        Section::OrderedList { start, delimiter, tight, items } => Block::OrderedList(
            OrderedList::new(md, *tight, *start, *delimiter, *items),
        ),
        // List items are normally consumed inside list widgets; met on their
        // own, their children are rendered in place.
        Section::ListItem { children } => Block::Sections(*children),
        Section::FootnoteDefinition { children } => Block::Sections(*children),
        Section::HorizontalRule => Block::HorizontalRule(HorizontalRule),
        Section::Table { rows, .. } => Block::Table(Table::new(md, *rows)),
        // Rows and cells are consumed inside the table widget.
        Section::TableRow { .. } | Section::TableCell { .. } => Block::Nothing,
        Section::HtmlBlock { html } => Block::Html(html.clone()),
        Section::HtmlLines { lines } => Block::Html(code_lines_text(md, *lines)),
    }
}

/// The blocks of every top-level section of `md`, in order.
pub fn document_blocks<'src>(md: &'src Document) -> (blocks: Vec<Block<'src>>)
    requires
        md.wf(),
    ensures
        blocks@.len() == md.sections@.len(),
        forall|k: int| 0 <= k < blocks@.len() ==> (#[trigger] blocks@[k]).renders(md, md.sections@[k]),
{
    let mut blocks: Vec<Block<'src>> = Vec::new();
    let mut k: usize = 0;
    while k < md.sections.len()
        invariant
            md.wf(),
            k <= md.sections@.len(),
            blocks@.len() == k,
            forall|j: int| 0 <= j < k ==> (#[trigger] blocks@[j]).renders(md, md.sections@[j]),
        decreases md.sections@.len() - k,
    {
        assert(md.section_refs_ok(md.sections@[k as int]));
        blocks.push(block_for(md, &md.sections[k]));
        k += 1;
    }
    blocks
}

/// The blocks of the *direct* child sections of the sub-forest `range`: the
/// interior of a blockquote or list item.
pub fn section_blocks<'src>(md: &'src Document, range: SectionRange) -> (blocks: Vec<Block<'src>>)
    requires
        md.wf(),
        md.range_ok(range),
    ensures
        blocks@.len() == child_indices(md.section_pool@, range).len(),
        forall|k: int|
            0 <= k < blocks@.len() ==> (#[trigger] blocks@[k]).renders(
                md,
                md.section_pool@[child_indices(md.section_pool@, range)[k]],
            ),
{
    let children = md.child_sections(range);
    let ghost idxs = child_indices(md.section_pool@, range);
    let mut blocks: Vec<Block<'src>> = Vec::new();
    let mut k: usize = 0;
    while k < children.len()
        invariant
            md.wf(),
            idxs == child_indices(md.section_pool@, range),
            children@.len() == idxs.len(),
            forall|j: int| 0 <= j < children@.len() ==> children@[j] as int == #[trigger] idxs[j],
            forall|j: int| 0 <= j < children@.len() ==> #[trigger] children@[j] < md.section_pool@.len(),
            k <= children@.len(),
            blocks@.len() == k,
            forall|j: int|
                0 <= j < k ==> (#[trigger] blocks@[j]).renders(md, md.section_pool@[idxs[j]]),
        decreases children@.len() - k,
    {
        let idx = children[k];
        assert(idx == idxs[k as int]);
        assert(md.section_refs_ok(md.section_pool@[idx as int]));
        blocks.push(block_for(md, &md.section_pool[idx]));
        k += 1;
    }
    blocks
}

} // verus!
