//! The parsed Markdown document the renderer reads: the top-level block
//! sections, the inline pool, the child-section pool and the dedented
//! code-line pool.
//!
//! Inline elements live in one flat pool in post-order: a container's
//! children occupy a contiguous span strictly *before* the container. Child
//! sections (blockquote and list-item interiors, list items, table rows and
//! cells) live in a second pool in pre-order: a container's [`SectionRange`]
//! covers its whole sub-forest, so direct children are found by skipping each
//! child's subtree.

use vstd::prelude::*;

verus! {

/// A contiguous run of entries in the document's inline pool.
#[derive(Clone, Copy, Debug)]
pub struct InlineSpan {
    pub start: u32,
    pub len: u32,
}

impl InlineSpan {
    /// One past the last pool index of the span.
    pub open spec fn end(self) -> int {
        self.start + self.len
    }

    pub fn new(start: u32, len: u32) -> (span: Self)
        ensures
            span.start == start,
            span.len == len,
    {
        InlineSpan { start, len }
    }

    pub fn is_empty(self) -> (b: bool)
        ensures
            b == (self.len == 0),
    {
        self.len == 0
    }
}

/// A contiguous run of entries in the document's child-section pool.
#[derive(Clone, Copy, Debug)]
pub struct SectionRange {
    pub start: u32,
    pub len: u32,
}

impl SectionRange {
    /// One past the last pool index of the range.
    pub open spec fn end(self) -> int {
        self.start + self.len
    }

    pub fn new(start: u32, len: u32) -> (range: Self)
        ensures
            range.start == start,
            range.len == len,
    {
        SectionRange { start, len }
    }
}

/// A contiguous run of entries in the document's code-line pool.
#[derive(Clone, Copy, Debug)]
pub struct LineRange {
    pub start: u32,
    pub len: u32,
}

impl LineRange {
    /// One past the last pool index of the range.
    pub open spec fn end(self) -> int {
        self.start + self.len
    }

    pub fn new(start: u32, len: u32) -> (range: Self)
        ensures
            range.start == start,
            range.len == len,
    {
        LineRange { start, len }
    }
}

/// One dedented code line: `pad` synthetic leading spaces, then `text`.
#[derive(Debug)]
pub struct PoolLine {
    pub pad: u8,
    pub text: String,
}

/// Column alignment of a table cell, from the colons of the delimiter row.
#[derive(Clone, Copy, Debug)]
pub enum ColumnAlignment {
    /// No colon (`---`): the renderer's default.
    Unspecified,
    Left,
    Center,
    Right,
}

/// The delimiter written after an ordered list item's number.
#[derive(Clone, Copy, Debug)]
pub enum OrderedListDelimiter {
    /// `1.`
    Dot,
    /// `1)`
    Paren,
}

/// An inline element.
#[derive(Debug)]
pub enum Inline {
    Text(String),
    Bold(InlineSpan),
    Italic(InlineSpan),
    Strikethrough(InlineSpan),
    Link { text: InlineSpan, url: String },
    Image { alt: InlineSpan, url: String },
    Code(String),
    Autolink { target: String },
    /// A footnote reference `[^label]`.
    FootnoteRef { label: String },
    RawHtml(String),
    SoftBreak,
    HardBreak,
}

impl Inline {
    /// The span of child inlines this element contains, if it is a container.
    pub open spec fn children(self) -> Option<InlineSpan> {
        match self {
            Inline::Bold(s) => Some(s),
            Inline::Italic(s) => Some(s),
            Inline::Strikethrough(s) => Some(s),
            Inline::Link { text, .. } => Some(text),
            Inline::Image { alt, .. } => Some(alt),
            _ => None,
        }
    }
}

/// A block-level element.
#[derive(Debug)]
pub enum Section {
    Heading { level: u8, content: InlineSpan },
    Paragraph { content: InlineSpan },
    CodeBlock { language: Option<String>, code: String },
    IndentedCode { code: String },
    UnorderedList { tight: bool, items: SectionRange },
    OrderedList { start: u32, delimiter: OrderedListDelimiter, tight: bool, items: SectionRange },
    ListItem { children: SectionRange },
    /// A code block whose dedented lines live in the line pool.
    CodeLines { language: Option<String>, lines: LineRange },
    Blockquote { children: SectionRange },
    /// A GFM alert (`> [!NOTE]` …): a blockquote with a marker.
    Alert { children: SectionRange },
    FootnoteDefinition { children: SectionRange },
    HtmlBlock { html: String },
    /// An HTML block whose dedented lines live in the line pool.
    HtmlLines { lines: LineRange },
    HorizontalRule,
    Table { columns: u16, rows: SectionRange },
    TableRow { header: bool, cells: SectionRange },
    TableCell { align: ColumnAlignment, content: InlineSpan },
}

impl Section {
    /// The sub-forest of child sections this section owns, if any.
    pub open spec fn child_range(self) -> Option<SectionRange> {
        match self {
            Section::UnorderedList { items, .. } => Some(items),
            Section::OrderedList { items, .. } => Some(items),
            Section::ListItem { children } => Some(children),
            Section::Blockquote { children } => Some(children),
            Section::Alert { children } => Some(children),
            Section::FootnoteDefinition { children } => Some(children),
            Section::Table { rows, .. } => Some(rows),
            Section::TableRow { cells, .. } => Some(cells),
            _ => None,
        }
    }

    /// The inline content this section renders, if any.
    pub open spec fn inline_content(self) -> Option<InlineSpan> {
        match self {
            Section::Heading { content, .. } => Some(content),
            Section::Paragraph { content } => Some(content),
            Section::TableCell { content, .. } => Some(content),
            _ => None,
        }
    }

    /// The code lines this section renders, if any.
    pub open spec fn line_range(self) -> Option<LineRange> {
        match self {
            Section::CodeLines { lines, .. } => Some(lines),
            Section::HtmlLines { lines } => Some(lines),
            _ => None,
        }
    }

    /// Number of pool entries this section occupies: itself plus its whole
    /// pre-order subtree.
    pub open spec fn subtree_size(self) -> int {
        match self.child_range() {
            Some(r) => 1 + r.len,
            None => 1,
        }
    }

    /// Executable [`subtree_size`](Self::subtree_size).
    pub fn pool_span(&self) -> (n: u64)
        ensures
            n == self.subtree_size(),
            n == match self.child_range() {
                Some(r) => 1 + r.len,
                None => 1,
            },
    {
        match self {
            Section::UnorderedList { items, .. } => 1 + items.len as u64,
            Section::OrderedList { items, .. } => 1 + items.len as u64,
            Section::ListItem { children } => 1 + children.len as u64,
            Section::Blockquote { children } => 1 + children.len as u64,
            Section::Alert { children } => 1 + children.len as u64,
            Section::FootnoteDefinition { children } => 1 + children.len as u64,
            Section::Table { rows, .. } => 1 + rows.len as u64,
            Section::TableRow { cells, .. } => 1 + cells.len as u64,
            _ => 1,
        }
    }
}

/// The pool indices of the direct children of the sub-forest `range`, from
/// offset `cursor` on: each child is followed by its own subtree, which is
/// skipped.
pub open spec fn children_from(pool: Seq<Section>, range: SectionRange, cursor: int) -> Seq<int>
    decreases range.len - cursor,
{
    if cursor < 0 || cursor >= range.len {
        seq![]
    } else {
        let idx = range.start + cursor;
        let next = cursor + pool[idx].subtree_size();
        if next >= range.len {
            seq![idx]
        } else {
            seq![idx] + children_from(pool, range, next)
        }
    }
}

/// Every direct child found from offset `cursor` on lies inside `range`.
pub proof fn lemma_children_from_in_range(pool: Seq<Section>, range: SectionRange, cursor: int)
    ensures
        forall|k: int|
            0 <= k < children_from(pool, range, cursor).len() ==> range.start <= #[trigger] children_from(
                pool,
                range,
                cursor,
            )[k] < range.end(),
    decreases range.len - cursor,
{
    if 0 <= cursor < range.len {
        let idx = range.start + cursor;
        let next = cursor + pool[idx].subtree_size();
        if next < range.len {
            lemma_children_from_in_range(pool, range, next);
            assert forall|k: int|
                0 <= k < children_from(pool, range, cursor).len() implies range.start
                <= #[trigger] children_from(pool, range, cursor)[k] < range.end() by {
                if k > 0 {
                    assert(children_from(pool, range, cursor)[k] == children_from(pool, range, next)[k
                        - 1]);
                }
            }
        }
    }
}

/// Scanning from offset `cursor`, the first direct child sits at that
/// offset, and each later one sits right after the previous child and the
/// whole sub-forest that child owns.
proof fn lemma_children_from_steps(pool: Seq<Section>, range: SectionRange, cursor: int)
    ensures
        0 <= cursor < range.len ==> children_from(pool, range, cursor).len() > 0
            && children_from(pool, range, cursor)[0] == range.start + cursor,
        forall|k: int|
            0 < k < children_from(pool, range, cursor).len() ==> #[trigger] children_from(
                pool,
                range,
                cursor,
            )[k] == children_from(pool, range, cursor)[k - 1] + 1 + match pool[children_from(
                pool,
                range,
                cursor,
            )[k - 1]].child_range() {
                Some(r) => r.len as int,
                None => 0int,
            },
    decreases range.len - cursor,
{
    if 0 <= cursor < range.len {
        let idx = range.start + cursor;
        let next = cursor + pool[idx].subtree_size();
        if next < range.len {
            lemma_children_from_steps(pool, range, next);
            let here = children_from(pool, range, cursor);
            let rest = children_from(pool, range, next);
            assert(here == seq![idx] + rest);
            assert forall|k: int| 0 < k < here.len() implies #[trigger] here[k] == here[k - 1] + 1
                + match pool[here[k - 1]].child_range() {
                Some(r) => r.len as int,
                None => 0int,
            } by {
                assert(here[k] == rest[k - 1]);
                if k > 1 {
                    assert(here[k - 1] == rest[k - 2]);
                }
            }
        }
    }
}

/// The direct children of a sub-forest are found by skipping subtrees: the
/// first child is the range's first entry, each later child comes right
/// after the previous child and every section that child owns (its whole
/// child range, for every kind that owns children), and so no direct child
/// lies inside the child range of an earlier one.
pub proof fn lemma_direct_children_skip_subtrees(pool: Seq<Section>, range: SectionRange)
    ensures
        range.len > 0 ==> child_indices(pool, range).len() > 0 && child_indices(pool, range)[0]
            == range.start,
        forall|k: int|
            0 < k < child_indices(pool, range).len() ==> #[trigger] child_indices(pool, range)[k]
                == child_indices(pool, range)[k - 1] + 1 + match pool[child_indices(
                pool,
                range,
            )[k - 1]].child_range() {
                Some(r) => r.len as int,
                None => 0int,
            },
        forall|j: int, k: int|
            0 <= j < k < child_indices(pool, range).len() ==> #[trigger] child_indices(pool, range)[k]
                >= #[trigger] child_indices(pool, range)[j] + 1 + match pool[child_indices(
                pool,
                range,
            )[j]].child_range() {
                Some(r) => r.len as int,
                None => 0int,
            },
{
    lemma_children_from_steps(pool, range, 0);
    lemma_children_from_apart(pool, range, 0);
}

/// Scanning from offset `cursor`, every direct child found lies at or after
/// that offset, and past every section an earlier child owns.
proof fn lemma_children_from_apart(pool: Seq<Section>, range: SectionRange, cursor: int)
    ensures
        forall|k: int|
            0 <= k < children_from(pool, range, cursor).len() ==> #[trigger] children_from(
                pool,
                range,
                cursor,
            )[k] >= range.start + cursor,
        forall|j: int, k: int|
            0 <= j < k < children_from(pool, range, cursor).len() ==> #[trigger] children_from(
                pool,
                range,
                cursor,
            )[k] >= #[trigger] children_from(pool, range, cursor)[j] + 1 + match pool[children_from(
                pool,
                range,
                cursor,
            )[j]].child_range() {
                Some(r) => r.len as int,
                None => 0int,
            },
    decreases range.len - cursor,
{
    if 0 <= cursor < range.len {
        let idx = range.start + cursor;
        let next = cursor + pool[idx].subtree_size();
        if next < range.len {
            lemma_children_from_apart(pool, range, next);
            let here = children_from(pool, range, cursor);
            let rest = children_from(pool, range, next);
            assert(here == seq![idx] + rest);
            assert forall|k: int| 0 <= k < here.len() implies #[trigger] here[k] >= range.start
                + cursor by {
                if k > 0 {
                    assert(here[k] == rest[k - 1]);
                }
            }
            assert forall|j: int, k: int| 0 <= j < k < here.len() implies #[trigger] here[k]
                >= #[trigger] here[j] + 1 + match pool[here[j]].child_range() {
                Some(r) => r.len as int,
                None => 0int,
            } by {
                assert(here[k] == rest[k - 1]);
                if j > 0 {
                    assert(here[j] == rest[j - 1]);
                }
            }
        }
    }
}

/// The pool indices of the direct children of the sub-forest `range`.
pub open spec fn child_indices(pool: Seq<Section>, range: SectionRange) -> Seq<int> {
    children_from(pool, range, 0)
}

/// The entries of `idxs` whose section satisfies `keep`, in order.
pub open spec fn select(pool: Seq<Section>, idxs: Seq<int>, keep: spec_fn(Section) -> bool) -> Seq<int>
    decreases idxs.len(),
{
    if idxs.len() == 0 {
        seq![]
    } else {
        let rest = select(pool, idxs.drop_last(), keep);
        if keep(pool[idxs.last()]) {
            rest.push(idxs.last())
        } else {
            rest
        }
    }
}

/// Extending the scanned prefix by one index extends the selection by that
/// index exactly when it is kept.
pub proof fn lemma_select_step(pool: Seq<Section>, idxs: Seq<int>, k: int, keep: spec_fn(Section) -> bool)
    requires
        0 <= k < idxs.len(),
    ensures
        select(pool, idxs.take(k + 1), keep) == if keep(pool[idxs[k]]) {
            select(pool, idxs.take(k), keep).push(idxs[k])
        } else {
            select(pool, idxs.take(k), keep)
        },
{
    assert(idxs.take(k + 1).drop_last() =~= idxs.take(k));
    assert(idxs.take(k + 1).last() == idxs[k]);
}

/// Scanning a prefix of `idxs` selects no more entries than scanning all of it.
pub proof fn lemma_select_prefix_len(pool: Seq<Section>, idxs: Seq<int>, k: int, keep: spec_fn(Section) -> bool)
    requires
        0 <= k <= idxs.len(),
    ensures
        select(pool, idxs.take(k), keep).len() <= select(pool, idxs, keep).len(),
    decreases idxs.len() - k,
{
    if k < idxs.len() {
        lemma_select_step(pool, idxs, k, keep);
        lemma_select_prefix_len(pool, idxs, k + 1, keep);
    } else {
        assert(idxs.take(k) =~= idxs);
    }
}

/// Whether a section is a list item.
pub open spec fn is_list_item(s: Section) -> bool {
    s is ListItem
}

/// Whether a section is a table row.
pub open spec fn is_table_row(s: Section) -> bool {
    s is TableRow
}

/// Whether a section is a table cell.
pub open spec fn is_table_cell(s: Section) -> bool {
    s is TableCell
}

/// The parsed document.
pub struct Document {
    /// The top-level sections, in order.
    pub sections: Vec<Section>,
    /// The inline pool, in post-order.
    pub inlines: Vec<Inline>,
    /// The child-section pool, in pre-order.
    pub section_pool: Vec<Section>,
    /// The dedented code-line pool.
    pub lines: Vec<PoolLine>,
}

impl Document {
    /// Every container inline's children lie strictly before it in the pool.
    pub open spec fn inline_ordered(pool: Seq<Inline>, i: int) -> bool {
        match pool[i].children() {
            Some(s) => s.end() <= i,
            None => true,
        }
    }

    /// Every pool reference a section carries lies within its pool.
    pub open spec fn section_refs_ok(&self, s: Section) -> bool {
        &&& (s.inline_content() matches Some(c) ==> c.end() <= self.inlines@.len())
        &&& (s.child_range() matches Some(r) ==> r.end() <= self.section_pool@.len())
        &&& (s.line_range() matches Some(l) ==> l.end() <= self.lines@.len())
    }

    /// The document is well formed: the inline pool is in post-order and every
    /// span and range any section carries is in bounds.
    pub open spec fn wf(&self) -> bool {
        &&& forall|i: int| 0 <= i < self.inlines@.len() ==> #[trigger] Self::inline_ordered(self.inlines@, i)
        &&& forall|i: int| 0 <= i < self.sections@.len() ==> #[trigger] self.section_refs_ok(self.sections@[i])
        &&& forall|i: int| 0 <= i < self.section_pool@.len() ==> #[trigger] self.section_refs_ok(self.section_pool@[i])
    }

    /// Whether `span` lies within the inline pool.
    pub open spec fn span_ok(&self, span: InlineSpan) -> bool {
        span.end() <= self.inlines@.len()
    }

    /// Whether `range` lies within the child-section pool.
    pub open spec fn range_ok(&self, range: SectionRange) -> bool {
        range.end() <= self.section_pool@.len()
    }

    /// Whether `range` lies within the code-line pool.
    pub open spec fn lines_ok(&self, range: LineRange) -> bool {
        range.end() <= self.lines@.len()
    }

    /// Executable [`span_ok`](Self::span_ok).
    pub fn inline_span_in_bounds(&self, span: InlineSpan) -> (b: bool)
        ensures
            b == self.span_ok(span),
    {
        span.start as u64 + span.len as u64 <= self.inlines.len() as u64
    }

    /// Executable [`range_ok`](Self::range_ok).
    pub fn section_range_in_bounds(&self, range: SectionRange) -> (b: bool)
        ensures
            b == self.range_ok(range),
    {
        range.start as u64 + range.len as u64 <= self.section_pool.len() as u64
    }

    /// Executable [`lines_ok`](Self::lines_ok).
    pub fn line_range_in_bounds(&self, range: LineRange) -> (b: bool)
        ensures
            b == self.lines_ok(range),
    {
        range.start as u64 + range.len as u64 <= self.lines.len() as u64
    }

    fn section_refs_in_bounds(&self, s: &Section) -> (b: bool)
        ensures
            b == self.section_refs_ok(*s),
    {
        match s {
            Section::Heading { content, .. } => self.inline_span_in_bounds(*content),
            Section::Paragraph { content } => self.inline_span_in_bounds(*content),
            Section::TableCell { content, .. } => self.inline_span_in_bounds(*content),
            Section::UnorderedList { items, .. } => self.section_range_in_bounds(*items),
            Section::OrderedList { items, .. } => self.section_range_in_bounds(*items),
            Section::ListItem { children } => self.section_range_in_bounds(*children),
            Section::Blockquote { children } => self.section_range_in_bounds(*children),
            Section::Alert { children } => self.section_range_in_bounds(*children),
            Section::FootnoteDefinition { children } => self.section_range_in_bounds(*children),
            Section::Table { rows, .. } => self.section_range_in_bounds(*rows),
            Section::TableRow { cells, .. } => self.section_range_in_bounds(*cells),
            Section::CodeLines { lines, .. } => self.line_range_in_bounds(*lines),
            Section::HtmlLines { lines } => self.line_range_in_bounds(*lines),
            _ => true,
        }
    }

    fn inline_children_before(&self, i: usize) -> (b: bool)
        requires
            i < self.inlines@.len(),
        ensures
            b == Self::inline_ordered(self.inlines@, i as int),
    {
        match &self.inlines[i] {
            Inline::Bold(s) => s.start as u64 + s.len as u64 <= i as u64,
            Inline::Italic(s) => s.start as u64 + s.len as u64 <= i as u64,
            Inline::Strikethrough(s) => s.start as u64 + s.len as u64 <= i as u64,
            Inline::Link { text, .. } => text.start as u64 + text.len as u64 <= i as u64,
            Inline::Image { alt, .. } => alt.start as u64 + alt.len as u64 <= i as u64,
            _ => true,
        }
    }

    /// Executable [`wf`](Self::wf): check that a document handed in from
    /// outside can be rendered.
    pub fn is_well_formed(&self) -> (b: bool)
        ensures
            b == self.wf(),
    {
        let mut i: usize = 0;
        while i < self.inlines.len()
            invariant
                i <= self.inlines@.len(),
                forall|j: int| 0 <= j < i ==> #[trigger] Self::inline_ordered(self.inlines@, j),
            decreases self.inlines@.len() - i,
        {
            if !self.inline_children_before(i) {
                return false;
            }
            i += 1;
        }
        let mut i: usize = 0;
        while i < self.sections.len()
            invariant
                i <= self.sections@.len(),
                forall|j: int| 0 <= j < i ==> #[trigger] self.section_refs_ok(self.sections@[j]),
            decreases self.sections@.len() - i,
        {
            if !self.section_refs_in_bounds(&self.sections[i]) {
                return false;
            }
            i += 1;
        }
        let mut i: usize = 0;
        while i < self.section_pool.len()
            invariant
                i <= self.section_pool@.len(),
                forall|j: int| 0 <= j < i ==> #[trigger] self.section_refs_ok(self.section_pool@[j]),
            decreases self.section_pool@.len() - i,
        {
            if !self.section_refs_in_bounds(&self.section_pool[i]) {
                return false;
            }
            i += 1;
        }
        true
    }

    /// The pool indices of the direct children of the sub-forest `range`, in
    /// order, skipping each child's own subtree.
    pub fn child_sections(&self, range: SectionRange) -> (children: Vec<usize>)
        requires
            self.range_ok(range),
        ensures
            children@.len() == child_indices(self.section_pool@, range).len(),
            forall|k: int|
                0 <= k < children@.len() ==> children@[k] as int == #[trigger] child_indices(
                    self.section_pool@,
                    range,
                )[k],
            forall|k: int|
                0 <= k < children@.len() ==> range.start <= #[trigger] children@[k] < range.end(),
    {
        let ghost pool = self.section_pool@;
        let mut children: Vec<usize> = Vec::new();
        let mut cursor: u64 = 0;
        while cursor < range.len as u64
            invariant
                self.range_ok(range),
                pool == self.section_pool@,
                cursor <= range.len,
                children@.map_values(|x: usize| x as int) + children_from(pool, range, cursor as int)
                    == child_indices(pool, range),
            decreases range.len - cursor,
        {
            let plen = self.section_pool.len();
            assert(range.start + cursor < plen);
            let idx = (range.start as u64 + cursor) as usize;
            assert(idx == range.start + cursor);
            let step = self.section_pool[idx].pool_span();
            proof {
                assert(children@.push(idx).map_values(|x: usize| x as int)
                    =~= children@.map_values(|x: usize| x as int).push(idx as int));
            }
            children.push(idx);
            let next = cursor + step;
            if next >= range.len as u64 {
                proof {
                    assert(children@.map_values(|x: usize| x as int) == child_indices(pool, range));
                }
                cursor = range.len as u64;
                assert(children_from(pool, range, cursor as int) =~= seq![]);
            } else {
                cursor = next;
            }
        }
        proof {
            let m = children@.map_values(|x: usize| x as int);
            assert(children_from(pool, range, cursor as int) =~= seq![]);
            assert(m + seq![] =~= m);
            lemma_children_from_in_range(pool, range, 0);
            assert forall|k: int| 0 <= k < children@.len() implies range.start <= #[trigger] children@[k]
                < range.end() by {
                assert(m[k] == children@[k] as int);
            }
        }
        children
    }
}

} // verus!
