//! [`Table`] — a GFM table in Obsidian style.
//!
//! The table's row range holds [`Section::TableRow`]s (header first, then body
//! rows), each holding [`Section::TableCell`]s carrying a [`ColumnAlignment`]
//! and an inline span. [`Table::layout`] lays out every cell's inline content
//! — header cells in bold, body cells in the prose style — keeps each cell's
//! alignment and links, and counts the columns; the widget sizes columns and
//! paints the grid from that.

use vstd::prelude::*;

use crate::document::{
    child_indices, is_table_cell, is_table_row, lemma_select_step, select, ColumnAlignment,
    Document, Section, SectionRange,
};
use crate::inline::{
    append_inlines, keeps_emphasis, lemma_span_runs_keep_emphasis, span_links, span_runs, span_text,
    InlineLayout, Style,
};

verus! {

/// The pool indices of the table rows among the direct children of `rows`.
pub open spec fn table_rows(pool: Seq<Section>, rows: SectionRange) -> Seq<int> {
    select(pool, child_indices(pool, rows), |s: Section| is_table_row(s))
}

/// The pool indices of the cells of the row at pool index `ri`.
pub open spec fn row_cells(pool: Seq<Section>, ri: int) -> Seq<int> {
    match pool[ri] {
        Section::TableRow { cells, .. } => select(
            pool,
            child_indices(pool, cells),
            |s: Section| is_table_cell(s),
        ),
        _ => seq![],
    }
}

/// Whether the row at pool index `ri` is the header row.
pub open spec fn row_is_header(pool: Seq<Section>, ri: int) -> bool {
    match pool[ri] {
        Section::TableRow { header, .. } => header,
        _ => false,
    }
}

/// The widest row's cell count among the rows at `ris`.
pub open spec fn column_count(pool: Seq<Section>, ris: Seq<int>) -> int
    decreases ris.len(),
{
    if ris.len() == 0 {
        0
    } else {
        let rest = column_count(pool, ris.drop_last());
        let n = row_cells(pool, ris.last()).len() as int;
        if rest >= n {
            rest
        } else {
            n
        }
    }
}

/// The style a cell's text starts from: bold for header cells.
pub open spec fn cell_style(header: bool) -> Style {
    if header {
        Style::spec_plain().bolded()
    } else {
        Style::spec_plain()
    }
}

/// One laid-out cell.
#[derive(Debug)]
pub struct CellLayout {
    pub layout: InlineLayout,
    pub align: ColumnAlignment,
    pub header: bool,
}

impl CellLayout {
    /// The cell lays out the table cell at pool index `ci` of a row whose
    /// header flag is `header`.
    pub open spec fn lays_out(&self, md: &Document, ci: int, header: bool) -> bool {
        match md.section_pool@[ci] {
            Section::TableCell { align, content } => {
                &&& self.align == align
                &&& self.header == header
                &&& self.layout.text@ == span_text(
                    md.inlines@,
                    content.start as int,
                    content.len as int,
                )
                &&& self.layout.run_views() == span_runs(
                    md.inlines@,
                    content.start as int,
                    content.len as int,
                    cell_style(header),
                )
                &&& self.layout.link_views() == span_links(
                    md.inlines@,
                    content.start as int,
                    content.len as int,
                    0,
                )
                &&& self.layout.consistent()
            },
            _ => false,
        }
    }
}

/// A body cell is laid out in the prose style and a header cell in bold: the
/// runs of a cell in a non-header row are those of its content under the
/// plain style (a cell holding one plain text lays out that text as one run,
/// neither bold nor tinted), while every run of a header cell is bold.
pub proof fn lemma_cell_styles(md: &Document, cell: &CellLayout, ci: int, header: bool)
    requires
        cell.lays_out(md, ci, header),
    ensures
        md.section_pool@[ci] matches Section::TableCell { content, .. } ==> {
            let runs = cell.layout.run_views();
            let (start, len) = (content.start as int, content.len as int);
            &&& !header ==> runs == span_runs(md.inlines@, start, len, Style::spec_plain())
            &&& !header && len == 1 && 0 <= start < md.inlines@.len()
                && md.inlines@[start] is Text ==> runs.len() == 1 && !runs[0].1.bold
                && runs[0].1.tint is Base && runs[0].2 is Text
            &&& header ==> runs == span_runs(md.inlines@, start, len, Style::spec_plain().bolded())
            &&& header ==> forall|k: int| 0 <= k < runs.len() ==> (#[trigger] runs[k]).1.bold
        },
{
    if let Section::TableCell { content, .. } = md.section_pool@[ci] {
        let (start, len) = (content.start as int, content.len as int);
        let style = cell_style(header);
        lemma_span_runs_keep_emphasis(md.inlines@, start, len, style);
        let runs = span_runs(md.inlines@, start, len, style);
        assert(forall|k: int| 0 <= k < runs.len() ==> keeps_emphasis(style, (#[trigger] runs[k]).1));
        if !header && len == 1 && 0 <= start < md.inlines@.len() && md.inlines@[start] is Text {
            assert(span_runs(md.inlines@, start, 0, style) =~= seq![]);
            assert(runs =~= span_runs(md.inlines@, start, 0, style) + crate::inline::node_runs(
                md.inlines@,
                start,
                style,
            ));
        }
    }
}

/// One laid-out row.
#[derive(Debug)]
pub struct RowLayout {
    pub cells: Vec<CellLayout>,
    /// The header row, when it has at least one cell.
    pub header: bool,
}

impl RowLayout {
    /// The row lays out the table row at pool index `ri`.
    pub open spec fn lays_out(&self, md: &Document, ri: int) -> bool {
        let cis = row_cells(md.section_pool@, ri);
        &&& self.cells@.len() == cis.len()
        &&& forall|c: int|
            0 <= c < self.cells@.len() ==> (#[trigger] self.cells@[c]).lays_out(
                md,
                cis[c],
                row_is_header(md.section_pool@, ri),
            )
        &&& self.header == (row_is_header(md.section_pool@, ri) && self.cells@.len() > 0)
    }
}

/// A laid-out table: its rows and the number of columns (the widest row).
#[derive(Debug)]
pub struct TableLayout {
    pub rows: Vec<RowLayout>,
    pub columns: usize,
}

fn row_layout(md: &Document, ri: usize) -> (row: RowLayout)
    requires
        md.wf(),
        ri < md.section_pool@.len(),
        is_table_row(md.section_pool@[ri as int]),
    ensures
        row.lays_out(md, ri as int),
{
    let ghost pool = md.section_pool@;
    let ghost keep = |s: Section| is_table_cell(s);
    assert(md.section_refs_ok(pool[ri as int]));
    match &md.section_pool[ri] {
        Section::TableRow { header, cells } => {
            let ghost idxs = child_indices(pool, *cells);
            let header = *header;
            let style = if header {
                Style::plain().with_bold()
            } else {
                Style::plain()
            };
            let children = md.child_sections(*cells);
            let mut out: Vec<CellLayout> = Vec::new();
            let mut k: usize = 0;
            while k < children.len()
                invariant
                    md.wf(),
                    pool == md.section_pool@,
                    idxs == child_indices(pool, *cells),
                    keep == (|s: Section| is_table_cell(s)),
                    row_cells(pool, ri as int) == select(pool, idxs, keep),
                    row_is_header(pool, ri as int) == header,
                    style == cell_style(header),
                    children@.len() == idxs.len(),
                    forall|j: int| 0 <= j < children@.len() ==> children@[j] as int == #[trigger] idxs[j],
                    forall|j: int| 0 <= j < children@.len() ==> #[trigger] children@[j] < pool.len(),
                    k <= children@.len(),
                    out@.len() == select(pool, idxs.take(k as int), keep).len(),
                    forall|c: int|
                        0 <= c < out@.len() ==> (#[trigger] out@[c]).lays_out(
                            md,
                            select(pool, idxs.take(k as int), keep)[c],
                            header,
                        ),
                decreases children@.len() - k,
            {
                proof {
                    lemma_select_step(pool, idxs, k as int, keep);
                }
                let ci = children[k];
                assert(ci == idxs[k as int]);
                assert(md.section_refs_ok(pool[ci as int]));
                if let Section::TableCell { align, content } = &md.section_pool[ci] {
                    let mut layout = InlineLayout::new();
                    append_inlines(md, *content, &mut layout, style);
                    assert(layout.text@ =~= span_text(
                        md.inlines@,
                        content.start as int,
                        content.len as int,
                    ));
                    assert(layout.run_views() =~= span_runs(
                        md.inlines@,
                        content.start as int,
                        content.len as int,
                        style,
                    ));
                    assert(layout.link_views() =~= span_links(
                        md.inlines@,
                        content.start as int,
                        content.len as int,
                        0,
                    ));
                    let ghost before = out@;
                    let ghost sel = select(pool, idxs.take(k as int), keep);
                    out.push(CellLayout { layout, align: *align, header });
                    assert forall|c: int| 0 <= c < out@.len() implies (#[trigger] out@[c]).lays_out(
                        md,
                        select(pool, idxs.take(k + 1), keep)[c],
                        header,
                    ) by {
                        if c < before.len() {
                            assert(out@[c] == before[c]);
                            assert(select(pool, idxs.take(k + 1), keep)[c] == sel[c]);
                        }
                    }
                }
                k += 1;
            }
            assert(idxs.take(k as int) =~= idxs);
            let is_header = header && out.len() > 0;
            RowLayout { cells: out, header: is_header }
        },
        _ => {
            assert(false);
            RowLayout { cells: Vec::new(), header: false }
        },
    }
}

/// An Obsidian-style GFM table.
pub struct Table<'src> {
    pub md: &'src Document,
    /// The table's sub-forest of rows and cells.
    pub rows: SectionRange,
}

impl<'src> Table<'src> {
    /// Construct a table from a table section's row range.
    pub fn new(md: &'src Document, rows: SectionRange) -> (table: Self)
        ensures
            table.md == md,
            table.rows == rows,
    {
        Table { md, rows }
    }

    /// Lay out every cell of every row, or `None` when there is nothing to
    /// draw (no row has a cell).
    pub fn layout(&self) -> (table: Option<TableLayout>)
        requires
            self.md.wf(),
            self.md.range_ok(self.rows),
        ensures
            ({
                let pool = self.md.section_pool@;
                let ris = table_rows(pool, self.rows);
                match table {
                    None => column_count(pool, ris) == 0,
                    Some(t) => {
                        &&& t.columns == column_count(pool, ris)
                        &&& t.columns > 0
                        &&& t.rows@.len() == ris.len()
                        &&& forall|k: int|
                            0 <= k < t.rows@.len() ==> (#[trigger] t.rows@[k]).lays_out(
                                self.md,
                                ris[k],
                            )
                    },
                }
            }),
    {
        let md = self.md;
        let ghost pool = md.section_pool@;
        let ghost idxs = child_indices(pool, self.rows);
        let ghost keep = |s: Section| is_table_row(s);
        let children = md.child_sections(self.rows);
        let mut rows: Vec<RowLayout> = Vec::new();
        let mut columns: usize = 0;
        let mut k: usize = 0;
        while k < children.len()
            invariant
                md.wf(),
                md == self.md,
                pool == md.section_pool@,
                idxs == child_indices(pool, self.rows),
                keep == (|s: Section| is_table_row(s)),
                children@.len() == idxs.len(),
                forall|j: int| 0 <= j < children@.len() ==> children@[j] as int == #[trigger] idxs[j],
                forall|j: int| 0 <= j < children@.len() ==> #[trigger] children@[j] < pool.len(),
                k <= children@.len(),
                rows@.len() == select(pool, idxs.take(k as int), keep).len(),
                columns == column_count(pool, select(pool, idxs.take(k as int), keep)),
                forall|m: int|
                    0 <= m < rows@.len() ==> (#[trigger] rows@[m]).lays_out(
                        md,
                        select(pool, idxs.take(k as int), keep)[m],
                    ),
            decreases children@.len() - k,
        {
            proof {
                lemma_select_step(pool, idxs, k as int, keep);
            }
            let ri = children[k];
            assert(ri == idxs[k as int]);
            if let Section::TableRow { .. } = &md.section_pool[ri] {
                let row = row_layout(md, ri);
                let n = row.cells.len();
                let ghost before = rows@;
                let ghost sel = select(pool, idxs.take(k as int), keep);
                if n > columns {
                    columns = n;
                }
                rows.push(row);
                assert(sel.push(ri as int).drop_last() =~= sel);
                assert forall|m: int| 0 <= m < rows@.len() implies (#[trigger] rows@[m]).lays_out(
                    md,
                    select(pool, idxs.take(k + 1), keep)[m],
                ) by {
                    if m < before.len() {
                        assert(rows@[m] == before[m]);
                        assert(select(pool, idxs.take(k + 1), keep)[m] == sel[m]);
                    }
                }
            }
            k += 1;
        }
        assert(idxs.take(k as int) =~= idxs);
        if columns == 0 || rows.len() == 0 {
            None
        } else {
            Some(TableLayout { rows, columns })
        }
    }
}

} // verus!
