//! Rendering logic on documents parsed from Markdown text.

use marki_parse::{Inline as M, MarkdownFile, Section as MS};
use tektite::components::list::decimal_string;
use tektite::components::code_block::CodeSource;
use tektite::inline::{flatten_inlines, link_url_at, resolve_bold, run_paint};
use tektite::{
    document_blocks, section_blocks, Block, ColumnAlignment, Document, Inline, InlineLayout,
    InlineSpan, LineRange, OrderedListDelimiter, PoolLine, RunKind, Section, SectionRange, Table,
    Tint, Color, Face, Tokens,
};

fn rgba(c: Color) -> (u8, u8, u8, u8) {
    (c.r, c.g, c.b, c.a)
}

/// Copies a parsed file into a [`Document`], rebuilding each pool in the
/// order the renderer expects: inlines in post-order, sections in pre-order.
struct Copier<'a, 'src> {
    md: &'a MarkdownFile<'src>,
    doc: Document,
}

impl<'a, 'src> Copier<'a, 'src> {
    fn span(&mut self, s: marki_parse::InlineSpan) -> InlineSpan {
        let md = self.md;
        let mut nodes = Vec::new();
        for inline in md.inlines(s) {
            nodes.push(self.inline(inline));
        }
        let start = self.doc.inlines.len() as u32;
        let len = nodes.len() as u32;
        self.doc.inlines.extend(nodes);
        InlineSpan::new(start, len)
    }

    fn inline(&mut self, i: &marki_parse::Inline<'_>) -> Inline {
        match *i {
            M::Text(t) => Inline::Text(t.to_owned()),
            M::Bold(s) => Inline::Bold(self.span(s)),
            M::Italic(s) => Inline::Italic(self.span(s)),
            M::Strikethrough(s) => Inline::Strikethrough(self.span(s)),
            M::Link { text, url, .. } => Inline::Link { text: self.span(text), url: url.to_owned() },
            M::Image { alt, url, .. } => Inline::Image { alt: self.span(alt), url: url.to_owned() },
            M::Code(c) => Inline::Code(c.to_owned()),
            M::Autolink { target, .. } => Inline::Autolink { target: target.to_owned() },
            M::FootnoteRef { label, .. } => Inline::FootnoteRef { label: label.to_owned() },
            M::RawHtml(h) => Inline::RawHtml(h.to_owned()),
            M::SoftBreak => Inline::SoftBreak,
            M::HardBreak => Inline::HardBreak,
        }
    }

    fn lines(&mut self, r: marki_parse::LineRange) -> LineRange {
        let md = self.md;
        let start = self.doc.lines.len() as u32;
        for l in md.code_lines(r) {
            self.doc.lines.push(PoolLine { pad: l.pad, text: l.text.to_owned() });
        }
        LineRange::new(start, self.doc.lines.len() as u32 - start)
    }

    fn forest(&mut self, r: marki_parse::SectionRange) -> SectionRange {
        let md = self.md;
        let start = self.doc.section_pool.len() as u32;
        for child in md.child_sections(r) {
            let at = self.doc.section_pool.len();
            self.doc.section_pool.push(Section::HorizontalRule);
            let converted = self.section(child);
            self.doc.section_pool[at] = converted;
        }
        SectionRange::new(start, self.doc.section_pool.len() as u32 - start)
    }

    fn section(&mut self, s: &marki_parse::Section<'_>) -> Section {
        match *s {
            MS::Heading { level, content } => Section::Heading { level, content: self.span(content) },
            MS::Paragraph { content } => Section::Paragraph { content: self.span(content) },
            MS::CodeBlock { language, code } => Section::CodeBlock {
                language: language.map(str::to_owned),
                code: code.to_owned(),
            },
            MS::IndentedCode { code } => Section::IndentedCode { code: code.to_owned() },
            MS::UnorderedList { tight, items } => Section::UnorderedList { tight, items: self.forest(items) },
            MS::OrderedList { start, delimiter, tight, items } => Section::OrderedList {
                start,
                delimiter: match delimiter {
                    marki_parse::OrderedListDelimiter::Dot => OrderedListDelimiter::Dot,
                    marki_parse::OrderedListDelimiter::Paren => OrderedListDelimiter::Paren,
                },
                tight,
                items: self.forest(items),
            },
            MS::ListItem { children, .. } => Section::ListItem { children: self.forest(children) },
            MS::CodeLines { language, lines } => Section::CodeLines {
                language: language.map(str::to_owned),
                lines: self.lines(lines),
            },
            MS::Blockquote { children } => Section::Blockquote { children: self.forest(children) },
            MS::Alert { children, .. } => Section::Alert { children: self.forest(children) },
            MS::FootnoteDefinition { children, .. } => {
                Section::FootnoteDefinition { children: self.forest(children) }
            }
            MS::HtmlBlock { html } => Section::HtmlBlock { html: html.to_owned() },
            MS::HtmlLines { lines } => Section::HtmlLines { lines: self.lines(lines) },
            MS::HorizontalRule => Section::HorizontalRule,
            MS::Table { columns, rows } => Section::Table { columns, rows: self.forest(rows) },
            MS::TableRow { header, cells } => Section::TableRow { header, cells: self.forest(cells) },
            MS::TableCell { align, content } => Section::TableCell {
                align: match align {
                    marki_parse::ColumnAlignment::None => ColumnAlignment::Unspecified,
                    marki_parse::ColumnAlignment::Left => ColumnAlignment::Left,
                    marki_parse::ColumnAlignment::Center => ColumnAlignment::Center,
                    marki_parse::ColumnAlignment::Right => ColumnAlignment::Right,
                },
                content: self.span(content),
            },
        }
    }
}

fn parse(src: &str) -> Document {
    let md = MarkdownFile::parse(src);
    let mut c = Copier {
        md: &md,
        doc: Document { sections: Vec::new(), inlines: Vec::new(), section_pool: Vec::new(), lines: Vec::new() },
    };
    for s in &md.sections {
        let converted = c.section(s);
        c.doc.sections.push(converted);
    }
    assert!(c.doc.is_well_formed());
    c.doc
}

/// The row range of the first top-level table, panicking otherwise.
fn table_rows(doc: &Document) -> SectionRange {
    match doc.sections.iter().find(|s| matches!(s, Section::Table { .. })) {
        Some(Section::Table { rows, .. }) => *rows,
        _ => panic!("expected a table section"),
    }
}

/// Lay the table of `src` out, as the table widget does before painting.
fn render(src: &str) -> Option<tektite::TableLayout> {
    let doc = parse(src);
    let rows = table_rows(&doc);
    Table::new(&doc, rows).layout()
}

fn cell_text(t: &tektite::TableLayout, r: usize, c: usize) -> String {
    t.rows[r].cells[c].layout.text.clone()
}

#[test]
fn renders_basic_table() {
    let t = render("| a | b |\n| --- | --- |\n| 1 | 2 |\n| 3 | 4 |").expect("a table");
    assert_eq!(t.columns, 2);
    assert_eq!(t.rows.len(), 3);
    assert!(t.rows[0].header);
    assert!(!t.rows[1].header && !t.rows[2].header);
    assert_eq!(cell_text(&t, 0, 0), "a");
    assert_eq!(cell_text(&t, 1, 1), "2");
    assert_eq!(cell_text(&t, 2, 0), "3");
}

#[test]
fn renders_all_alignments() {
    let t = render("| l | c | r |\n| :-- | :-: | --: |\n| 1 | 2 | 3 |").expect("a table");
    assert_eq!(t.columns, 3);
    assert!(matches!(t.rows[1].cells[0].align, ColumnAlignment::Left));
    assert!(matches!(t.rows[1].cells[1].align, ColumnAlignment::Center));
    assert!(matches!(t.rows[1].cells[2].align, ColumnAlignment::Right));
}

#[test]
fn renders_inline_cells_with_links() {
    let t = render("| x | y |\n| - | - |\n| **b** `c` | [k](https://egui.rs) |").expect("a table");
    let bold_code = &t.rows[1].cells[0].layout;
    assert_eq!(bold_code.text, "b c");
    assert!(bold_code.runs[0].style.bold);
    assert!(matches!(bold_code.runs[0].style.tint, Tint::Heading));
    assert!(matches!(bold_code.runs[2].kind, RunKind::Code));
    let link = &t.rows[1].cells[1].layout;
    assert_eq!(link.text, "k");
    assert_eq!(link.links.len(), 1);
    assert_eq!((link.links[0].char_start, link.links[0].char_end), (0, 1));
    assert_eq!(link.links[0].url, "https://egui.rs");
    assert_eq!(link_url_at(&link.links, 0).as_deref(), Some("https://egui.rs"));
    assert_eq!(link_url_at(&link.links, 1), None);
}

#[test]
fn renders_ragged_rows() {
    // Short row padded, long row truncated by the parser; the layout must cope.
    let t = render("| a | b | c |\n| - | - | - |\n| one |\n| 1 | 2 | 3 | 4 |").expect("a table");
    assert_eq!(t.columns, 3);
    assert_eq!(t.rows.len(), 3);
    assert_eq!(cell_text(&t, 1, 0), "one");
    assert_eq!(cell_text(&t, 1, 2), "");
}

#[test]
fn renders_header_only_table() {
    let t = render("| only header |\n| --- |").expect("a table");
    assert_eq!(t.columns, 1);
    assert_eq!(t.rows.len(), 1);
    assert!(t.rows[0].header);
    // Header cells start out bold.
    assert!(t.rows[0].cells[0].layout.runs[0].style.bold);
}

#[test]
fn a_table_without_cells_lays_out_to_nothing() {
    let doc = Document {
        sections: vec![Section::Table { columns: 0, rows: SectionRange::new(0, 1) }],
        inlines: Vec::new(),
        section_pool: vec![Section::TableRow { header: true, cells: SectionRange::new(1, 0) }],
        lines: Vec::new(),
    };
    assert!(doc.is_well_formed());
    assert!(Table::new(&doc, SectionRange::new(0, 1)).layout().is_none());
}

fn paragraph_layout(src: &str) -> InlineLayout {
    let doc = parse(src);
    match document_blocks(&doc).into_iter().next() {
        Some(Block::Paragraph(p)) => p.layout(),
        _ => panic!("expected a paragraph"),
    }
}

#[test]
fn paragraph_text_runs_and_link_ranges() {
    let l = paragraph_layout("Go *to* [the **site**](https://obsidian.md) now");
    assert_eq!(l.text, "Go to the site now");
    assert_eq!(l.links.len(), 1);
    assert_eq!((l.links[0].char_start, l.links[0].char_end), (6, 14));
    assert_eq!(l.links[0].url, "https://obsidian.md");
    // The runs spell the text.
    let spelled: String = l.runs.iter().map(|r| r.text.as_str()).collect();
    assert_eq!(spelled, l.text);
    // Bold inside a link takes the heading tint but stays underlined.
    let site = l.runs.iter().find(|r| r.text == "site").unwrap();
    assert!(site.style.bold && site.style.link);
    assert!(matches!(site.style.tint, Tint::Heading));
    let to = l.runs.iter().find(|r| r.text == "to").unwrap();
    assert!(to.style.italic && !to.style.link);
    assert_eq!(link_url_at(&l.links, 5), None);
    assert_eq!(link_url_at(&l.links, 6).as_deref(), Some("https://obsidian.md"));
    assert_eq!(link_url_at(&l.links, 13).as_deref(), Some("https://obsidian.md"));
    assert_eq!(link_url_at(&l.links, 14), None);
}

#[test]
fn autolinks_are_links_to_their_target() {
    let l = paragraph_layout("see <https://example.com> here");
    assert_eq!(l.text, "see https://example.com here");
    assert_eq!(l.links.len(), 1);
    assert_eq!((l.links[0].char_start, l.links[0].char_end), (4, 23));
    assert_eq!(l.links[0].url, "https://example.com");
    let run = &l.runs[1];
    assert!(run.style.link && matches!(run.style.tint, Tint::Accent));
}

#[test]
fn link_ranges_count_characters_not_bytes() {
    let l = paragraph_layout("héé [ü](u)");
    assert_eq!((l.links[0].char_start, l.links[0].char_end), (4, 5));
}

#[test]
fn images_show_their_flattened_alt_text_or_url() {
    let l = paragraph_layout("![foo *bar*](img.png)");
    assert_eq!(l.text, "\u{1f5bc} foo bar");
    assert!(matches!(l.runs[0].kind, RunKind::Image));
    let l = paragraph_layout("![](img.png)");
    assert_eq!(l.text, "\u{1f5bc} img.png");
}

#[test]
fn breaks_code_and_html_runs() {
    let l = paragraph_layout("a  \nb\nc `x` <span>");
    assert_eq!(l.text, "a\nb c x <span>");
    assert!(l.runs.iter().any(|r| r.text == "x" && matches!(r.kind, RunKind::Code)));
    assert!(l.runs.iter().any(|r| matches!(r.kind, RunKind::RawHtml)));
}

#[test]
fn flatten_drops_markup() {
    let doc = parse("**a** *b* [c](u) `d` <e@x.org>\nf");
    let content = match &doc.sections[0] {
        Section::Paragraph { content } => *content,
        _ => panic!("expected a paragraph"),
    };
    assert_eq!(flatten_inlines(&doc, content), "a b c d e@x.org f");
}

#[test]
fn strikethrough_runs_are_struck() {
    let l = paragraph_layout("~~gone~~");
    assert_eq!(l.text, "gone");
    assert!(l.runs[0].style.strikethrough);
}

#[test]
fn headings_clamp_and_rule() {
    let doc = parse("# One\n\n## Two\n\n### Three\n\n###### Six");
    let blocks = document_blocks(&doc);
    let mut seen = Vec::new();
    for b in &blocks {
        if let Block::Heading(h) = b {
            seen.push((h.level_index(), h.has_rule(), h.layout().text));
        }
    }
    assert_eq!(
        seen,
        vec![
            (0, true, "One".to_owned()),
            (1, true, "Two".to_owned()),
            (2, false, "Three".to_owned()),
            (5, false, "Six".to_owned()),
        ]
    );
    let h = tektite::Heading::new(&doc, 0, InlineSpan::new(0, 0));
    assert_eq!((h.level_index(), h.has_rule()), (0, true));
    let h = tektite::Heading::new(&doc, 9, InlineSpan::new(0, 0));
    assert_eq!((h.level_index(), h.has_rule()), (5, false));
}

#[test]
fn ordered_list_markers_count_from_start() {
    let doc = parse("7) seven\n8) eight\n9) nine\n10) ten\n");
    match &document_blocks(&doc)[0] {
        Block::OrderedList(list) => {
            let markers: Vec<String> = list.entries().into_iter().map(|e| e.marker).collect();
            assert_eq!(markers, vec!["7)", "8)", "9)", "10)"]);
        }
        _ => panic!("expected an ordered list"),
    }
    let doc = parse("1. a\n1. b\n");
    match &document_blocks(&doc)[0] {
        Block::OrderedList(list) => {
            let markers: Vec<String> = list.entries().into_iter().map(|e| e.marker).collect();
            assert_eq!(markers, vec!["1.", "2."]);
        }
        _ => panic!("expected an ordered list"),
    }
}

#[test]
fn unordered_list_bullets_and_nested_children() {
    let doc = parse("- a\n  - b\n- c\n");
    match &document_blocks(&doc)[0] {
        Block::UnorderedList(list) => {
            assert!(list.tight);
            let entries = list.entries();
            assert_eq!(entries.len(), 2);
            assert!(entries.iter().all(|e| e.marker == "\u{2022}"));
            // The first item holds a paragraph and a nested list.
            let inner = section_blocks(&doc, entries[0].children);
            assert_eq!(inner.len(), 2);
            assert!(matches!(inner[0], Block::Paragraph(_)));
            assert!(matches!(inner[1], Block::UnorderedList(_)));
        }
        _ => panic!("expected an unordered list"),
    }
}

#[test]
fn list_markers_skip_non_items() {
    // A hand-built list whose second child is not a list item.
    let doc = Document {
        sections: vec![Section::OrderedList {
            start: 3,
            delimiter: OrderedListDelimiter::Dot,
            tight: true,
            items: SectionRange::new(0, 3),
        }],
        inlines: Vec::new(),
        section_pool: vec![
            Section::ListItem { children: SectionRange::new(1, 0) },
            Section::HorizontalRule,
            Section::ListItem { children: SectionRange::new(3, 0) },
        ],
        lines: Vec::new(),
    };
    assert!(doc.is_well_formed());
    let list = tektite::OrderedList::new(&doc, true, 3, OrderedListDelimiter::Dot, SectionRange::new(0, 3));
    assert_eq!(tektite::components::list::list_item_count(&doc, SectionRange::new(0, 3)), 2);
    let markers: Vec<String> = list.entries().into_iter().map(|e| e.marker).collect();
    assert_eq!(markers, vec!["3.", "4."]);
}

#[test]
fn decimal_numbers() {
    assert_eq!(decimal_string(0), "0");
    assert_eq!(decimal_string(9), "9");
    assert_eq!(decimal_string(10), "10");
    assert_eq!(decimal_string(4_294_967_295), "4294967295");
}

#[test]
fn code_blocks_fenced_and_nested() {
    let doc = parse("```rust\nfn main() {}\n```\n\n> ```\n>  x\n> y\n> ```\n");
    let blocks = document_blocks(&doc);
    match &blocks[0] {
        Block::CodeBlock(c) => {
            assert_eq!(c.language, Some("rust"));
            assert_eq!(c.text(), "fn main() {}");
        }
        _ => panic!("expected a code block"),
    }
    match &blocks[1] {
        Block::Blockquote(q) => {
            let inner = section_blocks(&doc, q.children);
            match &inner[0] {
                Block::CodeBlock(c) => {
                    assert!(matches!(c.source, CodeSource::Lines(_)));
                    assert_eq!(c.language, None);
                    assert_eq!(c.text(), " x\ny\n");
                }
                _ => panic!("expected a code block"),
            }
        }
        _ => panic!("expected a blockquote"),
    }
}

#[test]
fn padded_code_lines() {
    let doc = Document {
        sections: vec![Section::CodeLines { language: None, lines: LineRange::new(0, 2) }],
        inlines: Vec::new(),
        section_pool: Vec::new(),
        lines: vec![
            PoolLine { pad: 2, text: "a".to_owned() },
            PoolLine { pad: 0, text: "b".to_owned() },
        ],
    };
    match &document_blocks(&doc)[0] {
        Block::CodeBlock(c) => assert_eq!(c.text(), "  a\nb\n"),
        _ => panic!("expected a code block"),
    }
}

#[test]
fn every_section_kind_dispatches() {
    let doc = parse("# h\n\np\n\n---\n\n<div>\nhtml\n</div>\n\n    indented\n\n> [!NOTE]\n> n\n");
    let blocks = document_blocks(&doc);
    assert!(matches!(blocks[0], Block::Heading(_)));
    assert!(matches!(blocks[1], Block::Paragraph(_)));
    assert!(matches!(blocks[2], Block::HorizontalRule(_)));
    match &blocks[3] {
        Block::Html(h) => assert_eq!(h, "<div>\nhtml\n</div>"),
        _ => panic!("expected html"),
    }
    match &blocks[4] {
        Block::CodeBlock(c) => {
            assert_eq!(c.language, None);
            assert!(c.text().contains("indented"));
        }
        _ => panic!("expected indented code"),
    }
    assert!(matches!(blocks[5], Block::Blockquote(_)));
    // Rows and cells met on their own render as nothing.
    let row = Section::TableRow { header: false, cells: SectionRange::new(0, 0) };
    assert!(matches!(tektite::block_for(&doc, &row), Block::Nothing));
    let item = Section::ListItem { children: SectionRange::new(0, 0) };
    assert!(matches!(tektite::block_for(&doc, &item), Block::Sections(_)));
}

#[test]
fn child_sections_skip_subtrees() {
    let doc = parse("> a\n>\n> > b\n>\n> c\n");
    match &doc.sections[0] {
        Section::Blockquote { children } => {
            let kids = doc.child_sections(*children);
            assert_eq!(kids.len(), 3);
            assert!(matches!(doc.section_pool[kids[1]], Section::Blockquote { .. }));
            assert!(matches!(doc.section_pool[kids[2]], Section::Paragraph { .. }));
        }
        _ => panic!("expected a blockquote"),
    }
}

#[test]
fn malformed_documents_are_detected() {
    let mut doc = parse("**a**");
    assert!(doc.is_well_formed());
    // A container whose children do not precede it.
    doc.inlines.push(Inline::Bold(InlineSpan::new(0, 5)));
    assert!(!doc.is_well_formed());
    let doc = Document {
        sections: vec![Section::Paragraph { content: InlineSpan::new(0, 1) }],
        inlines: Vec::new(),
        section_pool: Vec::new(),
        lines: Vec::new(),
    };
    assert!(!doc.is_well_formed());
    assert!(!doc.inline_span_in_bounds(InlineSpan::new(0, 1)));
    assert!(doc.inline_span_in_bounds(InlineSpan::new(0, 0)));
}

#[test]
fn bold_family_priority() {
    let names = |v: &[&str]| v.iter().map(|s| s.to_string()).collect::<Vec<_>>();
    assert_eq!(resolve_bold(&names(&["Bold", "glazier-semibold"])).as_deref(), Some("glazier-semibold"));
    assert_eq!(resolve_bold(&names(&["glazier-bold", "tektite-bold"])).as_deref(), Some("tektite-bold"));
    assert_eq!(resolve_bold(&names(&["Bold"])).as_deref(), Some("Bold"));
    assert_eq!(resolve_bold(&names(&["Proportional", "bold"])), None);
}

#[test]
fn footnote_references_show_their_label() {
    let doc = parse("x[^n]\n\n[^n]: note\n");
    let l = match &document_blocks(&doc)[0] {
        Block::Paragraph(p) => p.layout(),
        _ => panic!("expected a paragraph"),
    };
    assert_eq!(l.text, "x[^n]");
}

#[test]
fn the_first_covering_link_wins() {
    let links = vec![
        tektite::LinkRange { char_start: 2, char_end: 8, url: "outer".to_owned() },
        tektite::LinkRange { char_start: 4, char_end: 6, url: "inner".to_owned() },
        tektite::LinkRange { char_start: 10, char_end: 12, url: "later".to_owned() },
    ];
    assert_eq!(link_url_at(&links, 1), None);
    assert_eq!(link_url_at(&links, 2).as_deref(), Some("outer"));
    assert_eq!(link_url_at(&links, 5).as_deref(), Some("outer"));
    assert_eq!(link_url_at(&links, 8), None);
    assert_eq!(link_url_at(&links, 11).as_deref(), Some("later"));
    assert_eq!(link_url_at(&Vec::new(), 0), None);
}

#[test]
fn appending_to_a_non_empty_layout_offsets_links() {
    let doc = parse("[a](u) and <https://v>");
    let content = match &doc.sections[0] {
        Section::Paragraph { content } => *content,
        _ => panic!("expected a paragraph"),
    };
    let mut layout = InlineLayout::new();
    tektite::inline::append_inlines(&doc, content, &mut layout, tektite::Style::plain());
    tektite::inline::append_inlines(&doc, content, &mut layout, tektite::Style::plain());
    assert_eq!(layout.text, "a and https://va and https://v");
    let ranges: Vec<(usize, usize)> = layout.links.iter().map(|l| (l.char_start, l.char_end)).collect();
    assert_eq!(ranges, vec![(0, 1), (6, 15), (15, 16), (21, 30)]);
}

fn first_paragraph_content(doc: &Document) -> InlineSpan {
    match &doc.sections[0] {
        Section::Paragraph { content } => *content,
        _ => panic!("expected a paragraph"),
    }
}

#[test]
fn code_image_and_html_runs_are_painted_muted() {
    let tokens = Tokens::dark();
    let base = Color::from_rgb(1, 2, 3);
    let l = paragraph_layout("`x` ![alt](i.png) <b>");
    let code = l.runs.iter().find(|r| matches!(r.kind, RunKind::Code)).unwrap();
    let p = run_paint(&tokens, base, code);
    assert_eq!(rgba(p.color), rgba(tokens.muted_foreground));
    assert_eq!(rgba(p.color), (0xa8, 0xa9, 0xaa, 0xff));
    assert_eq!(p.background.map(rgba), Some(rgba(tokens.muted)));
    assert_eq!(p.background.map(rgba), Some((0x2a, 0x2a, 0x2a, 0xff)));
    assert!(matches!(p.face, Face::Monospace));
    assert!(!p.italic && p.underline.is_none() && p.strikethrough.is_none());

    let image = l.runs.iter().find(|r| matches!(r.kind, RunKind::Image)).unwrap();
    let p = run_paint(&tokens, base, image);
    assert_eq!(rgba(p.color), rgba(tokens.muted_foreground));
    assert!(p.italic);
    assert!(p.background.is_none());
    assert!(matches!(p.face, Face::Text));

    let html = l.runs.iter().find(|r| matches!(r.kind, RunKind::RawHtml)).unwrap();
    let p = run_paint(&tokens, base, html);
    assert_eq!(rgba(p.color), rgba(tokens.muted_foreground));
    assert!(!p.italic && p.background.is_none());
    assert!(matches!(p.face, Face::SmallMonospace));
}

#[test]
fn text_runs_are_painted_in_their_tint() {
    let tokens = Tokens::light();
    let base = Color::from_rgb(9, 8, 7);
    let l = paragraph_layout("plain **bold** [link](u) ~~gone~~ *it*");
    let paint = |text: &str| {
        let run = l.runs.iter().find(|r| r.text.trim() == text).unwrap();
        run_paint(&tokens, base, run)
    };
    let p = paint("plain");
    assert_eq!(rgba(p.color), (9, 8, 7, 255));
    assert!(p.underline.is_none() && !p.italic && matches!(p.face, Face::Text));
    let p = paint("bold");
    assert_eq!(rgba(p.color), rgba(tokens.heading));
    let p = paint("link");
    assert_eq!(rgba(p.color), rgba(tokens.accent));
    assert_eq!(p.underline.map(rgba), Some(rgba(tokens.accent)));
    let p = paint("gone");
    assert_eq!(p.strikethrough.map(rgba), Some((9, 8, 7, 255)));
    let p = paint("it");
    assert!(p.italic);
}

#[test]
fn laid_out_text_is_the_flattened_text_without_breaks_images_or_bare_links() {
    let doc = parse("a *b* **[c](u)** `d` <e@x.org> ~~f~~\ng");
    let content = first_paragraph_content(&doc);
    let l = tektite::inline::layout_inlines(&doc, content, tektite::Style::plain());
    assert_eq!(l.text, flatten_inlines(&doc, content));
    assert_eq!(l.text, "a b c d e@x.org f g");
    // A hard break is laid out as a newline but flattened to a space.
    let doc = parse("a  \nb");
    let content = first_paragraph_content(&doc);
    let l = tektite::inline::layout_inlines(&doc, content, tektite::Style::plain());
    assert_eq!(l.text, "a\nb");
    assert_eq!(flatten_inlines(&doc, content), "a b");
}

#[test]
fn an_emphasis_inline_lays_out_its_content_under_its_style() {
    let doc = parse("*x [y](u)*");
    let content = first_paragraph_content(&doc);
    let italic = (content.start + content.len - 1) as usize;
    let inner = match &doc.inlines[italic] {
        Inline::Italic(s) => *s,
        _ => panic!("expected an italic inline"),
    };
    let mut whole = InlineLayout::new();
    tektite::inline::append_inline(&doc, italic, &mut whole, tektite::Style::plain());
    let mut children = InlineLayout::new();
    tektite::inline::append_inlines(&doc, inner, &mut children, tektite::Style::plain().with_italic());
    assert_eq!(whole.text, children.text);
    assert_eq!(whole.text, "x y");
    assert_eq!(whole.runs.len(), children.runs.len());
    for (a, b) in whole.runs.iter().zip(children.runs.iter()) {
        assert_eq!(a.text, b.text);
        assert!(a.style.italic && b.style.italic);
        assert_eq!(a.style.link, b.style.link);
    }
    let ranges = |l: &InlineLayout| l.links.iter().map(|k| (k.char_start, k.char_end)).collect::<Vec<_>>();
    assert_eq!(ranges(&whole), ranges(&children));
    assert_eq!(ranges(&whole), vec![(2, 3)]);
}

#[test]
fn appending_one_inline_keeps_earlier_links_and_bounds_new_ones() {
    let doc = parse("[ab](u) [cd](v)");
    let content = first_paragraph_content(&doc);
    let mut layout = InlineLayout::new();
    tektite::inline::append_inlines(&doc, content, &mut layout, tektite::Style::plain());
    let before = layout.text.chars().count();
    let last = (content.start + content.len - 1) as usize;
    tektite::inline::append_inline(&doc, last, &mut layout, tektite::Style::plain());
    assert_eq!(layout.text, "ab cdcd");
    let ranges: Vec<(usize, usize)> = layout.links.iter().map(|l| (l.char_start, l.char_end)).collect();
    assert_eq!(ranges, vec![(0, 2), (3, 5), (5, 7)]);
    assert!(ranges[2].0 >= before && ranges[2].1 <= layout.text.chars().count());
}
