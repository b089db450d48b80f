//! Inline layout: turning a span of the inline pool into styled text runs,
//! the plain text they spell, and the character ranges of every link.
//!
//! [`append_inlines`] walks a span of inlines and appends one [`Run`] per
//! piece of text to an [`InlineLayout`], applying Obsidian-like typography
//! (bold, italic, strikethrough, links, inline code, soft/hard breaks) as a
//! [`Style`]. It also records a [`LinkRange`] for every link and autolink,
//! with character indices into the laid-out text, so callers can hit-test a
//! cursor position ([`link_url_at`]) and open URLs.
//!
//! Bold is drawn with the first registered bold font family, probed in the
//! priority order of [`resolve_bold`].

use vstd::prelude::*;

use crate::document::{Document, Inline, InlineSpan};
use crate::tokens::{Color, Tokens};

verus! {

// ---------------------------------------------------------------------------
// Styles, runs and link ranges
// ---------------------------------------------------------------------------

/// Which token colour a run is drawn in.
#[derive(Clone, Copy, Debug)]
pub enum Tint {
    /// The base colour of the enclosing block (prose, heading, cell).
    Base,
    /// The heading colour (bold text).
    Heading,
    /// The accent colour (links).
    Accent,
}

/// What kind of inline element produced a run; code, raw HTML and image
/// labels get their own faces on top of the style.
#[derive(Clone, Copy, Debug)]
pub enum RunKind {
    Text,
    Code,
    Image,
    RawHtml,
}

/// The typographic state a run inherits from its enclosing inlines.
#[derive(Clone, Copy, Debug)]
pub struct Style {
    pub bold: bool,
    pub italic: bool,
    pub strikethrough: bool,
    /// Underlined as a link.
    pub link: bool,
    pub tint: Tint,
}

impl Style {
    /// Plain text in the block's base colour.
    pub open spec fn spec_plain() -> Style {
        Style { bold: false, italic: false, strikethrough: false, link: false, tint: Tint::Base }
    }

    /// Inside `**bold**`: bold weight in the heading colour.
    pub open spec fn bolded(self) -> Style {
        Style { bold: true, tint: Tint::Heading, ..self }
    }

    /// Inside `*italic*`.
    pub open spec fn italicized(self) -> Style {
        Style { italic: true, ..self }
    }

    /// Inside `~~strikethrough~~`.
    pub open spec fn struck(self) -> Style {
        Style { strikethrough: true, ..self }
    }

    /// Inside a link: underlined, in the accent colour.
    pub open spec fn linked(self) -> Style {
        Style { link: true, tint: Tint::Accent, ..self }
    }

    pub fn plain() -> (s: Style)
        ensures
            s == Style::spec_plain(),
    {
        Style { bold: false, italic: false, strikethrough: false, link: false, tint: Tint::Base }
    }

    pub fn with_bold(self) -> (s: Style)
        ensures
            s == self.bolded(),
            s.italic == self.italic,
            s.strikethrough == self.strikethrough,
            s.link == self.link,
    {
        Style { bold: true, tint: Tint::Heading, ..self }
    }

    pub fn with_italic(self) -> (s: Style)
        ensures
            s == self.italicized(),
    {
        Style { italic: true, ..self }
    }

    pub fn with_strikethrough(self) -> (s: Style)
        ensures
            s == self.struck(),
    {
        Style { strikethrough: true, ..self }
    }

    pub fn with_link(self) -> (s: Style)
        ensures
            s == self.linked(),
    {
        Style { link: true, tint: Tint::Accent, ..self }
    }
}

/// Whether `inner` keeps every emphasis `outer` has: bold, italic,
/// strikethrough and link.
pub open spec fn keeps_emphasis(outer: Style, inner: Style) -> bool {
    &&& outer.bold ==> inner.bold
    &&& outer.italic ==> inner.italic
    &&& outer.strikethrough ==> inner.strikethrough
    &&& outer.link ==> inner.link
}

/// Emphasis only adds to the inherited style: bold, italic, strikethrough
/// and link each turn their own flag on and keep every other one; only bold
/// and link change the tint (to the heading and accent colours).
pub proof fn lemma_emphasis_only_adds(s: Style)
    ensures
        keeps_emphasis(s, s.bolded()),
        s.bolded().bold,
        s.bolded().tint is Heading,
        keeps_emphasis(s, s.italicized()),
        s.italicized().italic,
        s.italicized().tint == s.tint,
        keeps_emphasis(s, s.struck()),
        s.struck().strikethrough,
        s.struck().tint == s.tint,
        keeps_emphasis(s, s.linked()),
        s.linked().link,
        s.linked().tint is Accent,
{
}

/// One piece of laid-out text and how to draw it.
#[derive(Debug)]
pub struct Run {
    pub text: String,
    pub style: Style,
    pub kind: RunKind,
}

impl View for Run {
    type V = (Seq<char>, Style, RunKind);

    open spec fn view(&self) -> (Seq<char>, Style, RunKind) {
        (self.text@, self.style, self.kind)
    }
}

/// A character-index range inside a layout's text that corresponds to a
/// hyperlink.  Used by widgets to hit-test cursor positions after layout.
#[derive(Debug)]
pub struct LinkRange {
    /// Inclusive start character index in the laid-out text.
    pub char_start: usize,
    /// Exclusive end character index.
    pub char_end: usize,
    /// The URL to open when the span is clicked.
    pub url: String,
}

impl View for LinkRange {
    type V = (int, int, Seq<char>);

    open spec fn view(&self) -> (int, int, Seq<char>) {
        (self.char_start as int, self.char_end as int, self.url@)
    }
}

/// Laid-out inline text: the whole text, the styled runs that spell it, and
/// the links found in it.
#[derive(Debug)]
pub struct InlineLayout {
    pub text: String,
    pub runs: Vec<Run>,
    pub links: Vec<LinkRange>,
}

impl InlineLayout {
    pub open spec fn run_views(&self) -> Seq<(Seq<char>, Style, RunKind)> {
        self.runs@.map_values(|r: Run| r@)
    }

    pub open spec fn link_views(&self) -> Seq<(int, int, Seq<char>)> {
        self.links@.map_values(|l: LinkRange| l@)
    }

    /// The layout's text is exactly what its runs spell, in order, and every
    /// link range lies within that text.
    pub open spec fn consistent(&self) -> bool {
        &&& self.text@ == runs_text(self.run_views())
        &&& forall|k: int|
            0 <= k < self.link_views().len() ==> {
                let l = #[trigger] self.link_views()[k];
                0 <= l.0 <= l.1 <= self.text@.len()
            }
    }

    /// An empty layout.
    pub fn new() -> (layout: Self)
        ensures
            layout.consistent(),
            layout.text@ == Seq::<char>::empty(),
            layout.run_views() == Seq::<(Seq<char>, Style, RunKind)>::empty(),
            layout.link_views() == Seq::<(int, int, Seq<char>)>::empty(),
    {
        let layout = InlineLayout { text: String::new(), runs: Vec::new(), links: Vec::new() };
        assert(layout.run_views() =~= Seq::<(Seq<char>, Style, RunKind)>::empty());
        assert(runs_text(layout.run_views()) =~= Seq::<char>::empty());
        assert(layout.link_views() =~= Seq::<(int, int, Seq<char>)>::empty());
        layout
    }

    fn push_run(&mut self, text: String, style: Style, kind: RunKind)
        ensures
            final(self).text@ == old(self).text@ + text@,
            final(self).run_views() == old(self).run_views().push((text@, style, kind)),
            final(self).link_views() == old(self).link_views(),
    {
        self.text.append(text.as_str());
        let run = Run { text, style, kind };
        let ghost v = run@;
        self.runs.push(run);
        assert(self.run_views() =~= old(self).run_views().push(v));
    }

    fn push_link(&mut self, char_start: usize, char_end: usize, url: String)
        ensures
            final(self).text@ == old(self).text@,
            final(self).run_views() == old(self).run_views(),
            final(self).link_views() == old(self).link_views().push(
                (char_start as int, char_end as int, url@),
            ),
    {
        let link = LinkRange { char_start, char_end, url };
        let ghost v = link@;
        self.links.push(link);
        assert(self.link_views() =~= old(self).link_views().push(v));
    }
}

// ---------------------------------------------------------------------------
// What a span of inlines lays out to
// ---------------------------------------------------------------------------

/// The label drawn for an image: a picture glyph, then the flattened alt
/// text, or the URL when the alt text is empty.
pub open spec fn image_label(alt: Seq<char>, url: Seq<char>) -> Seq<char> {
    seq!['\u{1f5bc}', ' '] + if alt.len() == 0 {
        url
    } else {
        alt
    }
}

/// The literal text of a footnote reference: `[^label]`.
pub open spec fn footnote_text(label: Seq<char>) -> Seq<char> {
    seq!['[', '^'] + label + seq![']']
}

/// The plain text of the first `len` inlines from `start` (alt text,
/// markup dropped): what [`flatten_inlines`] returns.
pub open spec fn flat_span(pool: Seq<Inline>, start: int, len: int) -> Seq<char>
    decreases start + len, 1int,
{
    if start < 0 || len <= 0 {
        seq![]
    } else {
        flat_span(pool, start, len - 1) + flat_node(pool, start + len - 1)
    }
}

/// The plain text of the inline at pool index `i`.
pub open spec fn flat_node(pool: Seq<Inline>, i: int) -> Seq<char>
    decreases i + 1, 0int,
{
    if i < 0 || i >= pool.len() {
        seq![]
    } else {
        match pool[i] {
            Inline::Text(t) => t@,
            Inline::SoftBreak => seq![' '],
            Inline::HardBreak => seq![' '],
            Inline::Bold(s) => if s.end() <= i {
                flat_span(pool, s.start as int, s.len as int)
            } else {
                seq![]
            },
            Inline::Italic(s) => if s.end() <= i {
                flat_span(pool, s.start as int, s.len as int)
            } else {
                seq![]
            },
            Inline::Strikethrough(s) => if s.end() <= i {
                flat_span(pool, s.start as int, s.len as int)
            } else {
                seq![]
            },
            Inline::Code(c) => c@,
            Inline::RawHtml(h) => h@,
            Inline::Link { text, .. } => if text.end() <= i {
                flat_span(pool, text.start as int, text.len as int)
            } else {
                seq![]
            },
            Inline::Image { alt, .. } => if alt.end() <= i {
                flat_span(pool, alt.start as int, alt.len as int)
            } else {
                seq![]
            },
            Inline::Autolink { target } => target@,
            Inline::FootnoteRef { label } => footnote_text(label@),
        }
    }
}

/// The laid-out text of the first `len` inlines from `start`.
pub open spec fn span_text(pool: Seq<Inline>, start: int, len: int) -> Seq<char>
    decreases start + len, 1int,
{
    if start < 0 || len <= 0 {
        seq![]
    } else {
        span_text(pool, start, len - 1) + node_text(pool, start + len - 1)
    }
}

/// The laid-out text of the inline at pool index `i`.
pub open spec fn node_text(pool: Seq<Inline>, i: int) -> Seq<char>
    decreases i + 1, 0int,
{
    if i < 0 || i >= pool.len() {
        seq![]
    } else {
        match pool[i] {
            Inline::Text(t) => t@,
            Inline::SoftBreak => seq![' '],
            Inline::HardBreak => seq!['\n'],
            Inline::Bold(s) => if s.end() <= i {
                span_text(pool, s.start as int, s.len as int)
            } else {
                seq![]
            },
            Inline::Italic(s) => if s.end() <= i {
                span_text(pool, s.start as int, s.len as int)
            } else {
                seq![]
            },
            Inline::Strikethrough(s) => if s.end() <= i {
                span_text(pool, s.start as int, s.len as int)
            } else {
                seq![]
            },
            Inline::Code(c) => c@,
            Inline::RawHtml(h) => h@,
            Inline::Link { text, url } => if text.len == 0 {
                url@
            } else if text.end() <= i {
                span_text(pool, text.start as int, text.len as int)
            } else {
                seq![]
            },
            Inline::Image { alt, url } => image_label(
                if alt.end() <= i {
                    flat_span(pool, alt.start as int, alt.len as int)
                } else {
                    seq![]
                },
                url@,
            ),
            Inline::Autolink { target } => target@,
            Inline::FootnoteRef { label } => footnote_text(label@),
        }
    }
}

/// The runs the first `len` inlines from `start` lay out to, under `style`.
pub open spec fn span_runs(pool: Seq<Inline>, start: int, len: int, style: Style) -> Seq<
    (Seq<char>, Style, RunKind),
>
    decreases start + len, 1int,
{
    if start < 0 || len <= 0 {
        seq![]
    } else {
        span_runs(pool, start, len - 1, style) + node_runs(pool, start + len - 1, style)
    }
}

/// The runs the inline at pool index `i` lays out to, under `style`.
pub open spec fn node_runs(pool: Seq<Inline>, i: int, style: Style) -> Seq<
    (Seq<char>, Style, RunKind),
>
    decreases i + 1, 0int,
{
    if i < 0 || i >= pool.len() {
        seq![]
    } else {
        match pool[i] {
            Inline::Text(t) => seq![(t@, style, RunKind::Text)],
            Inline::SoftBreak => seq![(seq![' '], style, RunKind::Text)],
            Inline::HardBreak => seq![(seq!['\n'], style, RunKind::Text)],
            Inline::Bold(s) => if s.end() <= i {
                span_runs(pool, s.start as int, s.len as int, style.bolded())
            } else {
                seq![]
            },
            Inline::Italic(s) => if s.end() <= i {
                span_runs(pool, s.start as int, s.len as int, style.italicized())
            } else {
                seq![]
            },
            Inline::Strikethrough(s) => if s.end() <= i {
                span_runs(pool, s.start as int, s.len as int, style.struck())
            } else {
                seq![]
            },
            Inline::Code(c) => seq![(c@, style, RunKind::Code)],
            Inline::RawHtml(h) => seq![(h@, style, RunKind::RawHtml)],
            Inline::Link { text, url } => if text.len == 0 {
                seq![(url@, style.linked(), RunKind::Text)]
            } else if text.end() <= i {
                span_runs(pool, text.start as int, text.len as int, style.linked())
            } else {
                seq![]
            },
            Inline::Image { alt, url } => seq![
                (
                    image_label(
                        if alt.end() <= i {
                            flat_span(pool, alt.start as int, alt.len as int)
                        } else {
                            seq![]
                        },
                        url@,
                    ),
                    style,
                    RunKind::Image,
                ),
            ],
            Inline::Autolink { target } => seq![(target@, style.linked(), RunKind::Text)],
            Inline::FootnoteRef { label } => seq![(footnote_text(label@), style, RunKind::Text)],
        }
    }
}

/// The link ranges of the first `len` inlines from `start`, when their text
/// begins at character `offset`.
pub open spec fn span_links(pool: Seq<Inline>, start: int, len: int, offset: int) -> Seq<
    (int, int, Seq<char>),
>
    decreases start + len, 1int,
{
    if start < 0 || len <= 0 {
        seq![]
    } else {
        span_links(pool, start, len - 1, offset) + node_links(
            pool,
            start + len - 1,
            offset + span_text(pool, start, len - 1).len(),
        )
    }
}

/// The link ranges of the inline at pool index `i`, when its text begins at
/// character `offset`: those of its children, then its own.
pub open spec fn node_links(pool: Seq<Inline>, i: int, offset: int) -> Seq<(int, int, Seq<char>)>
    decreases i + 1, 0int,
{
    if i < 0 || i >= pool.len() {
        seq![]
    } else {
        match pool[i] {
            Inline::Bold(s) => if s.end() <= i {
                span_links(pool, s.start as int, s.len as int, offset)
            } else {
                seq![]
            },
            Inline::Italic(s) => if s.end() <= i {
                span_links(pool, s.start as int, s.len as int, offset)
            } else {
                seq![]
            },
            Inline::Strikethrough(s) => if s.end() <= i {
                span_links(pool, s.start as int, s.len as int, offset)
            } else {
                seq![]
            },
            Inline::Link { text, url } => (if text.len == 0 {
                seq![]
            } else if text.end() <= i {
                span_links(pool, text.start as int, text.len as int, offset)
            } else {
                seq![]
            }) + seq![(offset, offset + node_text(pool, i).len(), url@)],
            Inline::Autolink { target } => seq![(offset, offset + target@.len(), target@)],
            _ => seq![],
        }
    }
}

// ---------------------------------------------------------------------------
// Laws of the layout
// ---------------------------------------------------------------------------

/// The text a sequence of runs spells, in order.
pub open spec fn runs_text(runs: Seq<(Seq<char>, Style, RunKind)>) -> Seq<char>
    decreases runs.len(),
{
    if runs.len() == 0 {
        seq![]
    } else {
        runs_text(runs.drop_last()) + runs.last().0
    }
}

proof fn lemma_runs_text_concat(
    a: Seq<(Seq<char>, Style, RunKind)>,
    b: Seq<(Seq<char>, Style, RunKind)>,
)
    ensures
        runs_text(a + b) == runs_text(a) + runs_text(b),
    decreases b.len(),
{
    if b.len() == 0 {
        assert(a + b =~= a);
        assert(runs_text(a) + runs_text(b) =~= runs_text(a));
    } else {
        lemma_runs_text_concat(a, b.drop_last());
        assert((a + b).drop_last() =~= a + b.drop_last());
        assert(runs_text(a + b) =~= runs_text(a) + runs_text(b));
    }
}

proof fn lemma_single_run_text(r: (Seq<char>, Style, RunKind))
    ensures
        runs_text(seq![r]) == r.0,
{
    let e = Seq::<(Seq<char>, Style, RunKind)>::empty();
    assert(seq![r].drop_last() =~= e);
    assert(runs_text(e) == Seq::<char>::empty());
    assert(runs_text(seq![r]) =~= r.0);
}

/// The runs a span lays out to spell exactly the span's laid-out text,
/// whatever style they inherit.
pub proof fn lemma_span_runs_spell_text(pool: Seq<Inline>, start: int, len: int, style: Style)
    ensures
        runs_text(span_runs(pool, start, len, style)) == span_text(pool, start, len),
    decreases start + len, 1int,
{
    if start >= 0 && len > 0 {
        lemma_span_runs_spell_text(pool, start, len - 1, style);
        lemma_node_runs_spell_text(pool, start + len - 1, style);
        lemma_runs_text_concat(
            span_runs(pool, start, len - 1, style),
            node_runs(pool, start + len - 1, style),
        );
    } else {
        assert(runs_text(span_runs(pool, start, len, style)) =~= span_text(pool, start, len));
    }
}

/// The runs one inline lays out to spell exactly its laid-out text.
pub proof fn lemma_node_runs_spell_text(pool: Seq<Inline>, i: int, style: Style)
    ensures
        runs_text(node_runs(pool, i, style)) == node_text(pool, i),
    decreases i + 1, 0int,
{
    if 0 <= i < pool.len() {
        match pool[i] {
            Inline::Bold(s) => if s.end() <= i {
                lemma_span_runs_spell_text(pool, s.start as int, s.len as int, style.bolded());
            } else {
                assert(runs_text(node_runs(pool, i, style)) =~= node_text(pool, i));
            },
            Inline::Italic(s) => if s.end() <= i {
                lemma_span_runs_spell_text(pool, s.start as int, s.len as int, style.italicized());
            } else {
                assert(runs_text(node_runs(pool, i, style)) =~= node_text(pool, i));
            },
            Inline::Strikethrough(s) => if s.end() <= i {
                lemma_span_runs_spell_text(pool, s.start as int, s.len as int, style.struck());
            } else {
                assert(runs_text(node_runs(pool, i, style)) =~= node_text(pool, i));
            },
            Inline::Link { text, url } => if text.len == 0 {
                lemma_single_run_text((url@, style.linked(), RunKind::Text));
            } else if text.end() <= i {
                lemma_span_runs_spell_text(pool, text.start as int, text.len as int, style.linked());
            } else {
                assert(runs_text(node_runs(pool, i, style)) =~= node_text(pool, i));
            },
            _ => {
                lemma_single_run_text(node_runs(pool, i, style)[0]);
                assert(node_runs(pool, i, style) =~= seq![node_runs(pool, i, style)[0]]);
            },
        }
    } else {
        assert(runs_text(node_runs(pool, i, style)) =~= node_text(pool, i));
    }
}

/// Every run a span lays out keeps the emphasis of the style it inherits:
/// text inside an italic inline stays italic however deeply it is nested in
/// bold, struck or link text, and likewise for bold, strikethrough and links.
pub proof fn lemma_span_runs_keep_emphasis(pool: Seq<Inline>, start: int, len: int, style: Style)
    ensures
        forall|k: int|
            0 <= k < span_runs(pool, start, len, style).len() ==> keeps_emphasis(
                style,
                (#[trigger] span_runs(pool, start, len, style)[k]).1,
            ),
    decreases start + len, 1int,
{
    if start >= 0 && len > 0 {
        lemma_span_runs_keep_emphasis(pool, start, len - 1, style);
        lemma_node_runs_keep_emphasis(pool, start + len - 1, style);
        let head = span_runs(pool, start, len - 1, style);
        let tail = node_runs(pool, start + len - 1, style);
        assert forall|k: int| 0 <= k < span_runs(pool, start, len, style).len() implies keeps_emphasis(
            style,
            (#[trigger] span_runs(pool, start, len, style)[k]).1,
        ) by {
            if k < head.len() {
                assert(span_runs(pool, start, len, style)[k] == head[k]);
            } else {
                assert(span_runs(pool, start, len, style)[k] == tail[k - head.len()]);
            }
        }
    }
}

/// Every run one inline lays out keeps the emphasis of the style it
/// inherits.
pub proof fn lemma_node_runs_keep_emphasis(pool: Seq<Inline>, i: int, style: Style)
    ensures
        forall|k: int|
            0 <= k < node_runs(pool, i, style).len() ==> keeps_emphasis(
                style,
                (#[trigger] node_runs(pool, i, style)[k]).1,
            ),
    decreases i + 1, 0int,
{
    if 0 <= i < pool.len() {
        let runs = node_runs(pool, i, style);
        match pool[i] {
            Inline::Bold(s) => if s.end() <= i {
                lemma_span_runs_keep_emphasis(pool, s.start as int, s.len as int, style.bolded());
                assert(runs == span_runs(pool, s.start as int, s.len as int, style.bolded()));
            },
            Inline::Italic(s) => if s.end() <= i {
                lemma_span_runs_keep_emphasis(pool, s.start as int, s.len as int, style.italicized());
                assert(runs == span_runs(pool, s.start as int, s.len as int, style.italicized()));
            },
            Inline::Strikethrough(s) => if s.end() <= i {
                lemma_span_runs_keep_emphasis(pool, s.start as int, s.len as int, style.struck());
                assert(runs == span_runs(pool, s.start as int, s.len as int, style.struck()));
            },
            Inline::Link { text, url } => if text.len == 0 {
                assert(runs == seq![(url@, style.linked(), RunKind::Text)]);
            } else if text.end() <= i {
                lemma_span_runs_keep_emphasis(
                    pool,
                    text.start as int,
                    text.len as int,
                    style.linked(),
                );
                assert(runs == span_runs(pool, text.start as int, text.len as int, style.linked()));
            },
            Inline::Autolink { target } => {
                assert(runs == seq![(target@, style.linked(), RunKind::Text)]);
            },
            _ => {
                assert(runs.len() <= 1);
                assert(runs.len() == 1 ==> runs[0].1 == style);
            },
        }
    }
}

/// Every link range a span records lies within the span's own text, which
/// begins at character `offset`.
pub proof fn lemma_span_links_within_text(pool: Seq<Inline>, start: int, len: int, offset: int)
    ensures
        forall|k: int|
            0 <= k < span_links(pool, start, len, offset).len() ==> {
                let l = #[trigger] span_links(pool, start, len, offset)[k];
                offset <= l.0 <= l.1 <= offset + span_text(pool, start, len).len()
            },
    decreases start + len, 1int,
{
    if start >= 0 && len > 0 {
        let head = span_links(pool, start, len - 1, offset);
        let mid = offset + span_text(pool, start, len - 1).len();
        let tail = node_links(pool, start + len - 1, mid);
        lemma_span_links_within_text(pool, start, len - 1, offset);
        lemma_node_links_within_text(pool, start + len - 1, mid);
        assert forall|k: int| 0 <= k < span_links(pool, start, len, offset).len() implies {
            let l = #[trigger] span_links(pool, start, len, offset)[k];
            offset <= l.0 <= l.1 <= offset + span_text(pool, start, len).len()
        } by {
            if k < head.len() {
                assert(span_links(pool, start, len, offset)[k] == head[k]);
            } else {
                assert(span_links(pool, start, len, offset)[k] == tail[k - head.len()]);
            }
        }
    }
}

/// Every link range one inline records lies within its own text, which
/// begins at character `offset`.
pub proof fn lemma_node_links_within_text(pool: Seq<Inline>, i: int, offset: int)
    ensures
        forall|k: int|
            0 <= k < node_links(pool, i, offset).len() ==> {
                let l = #[trigger] node_links(pool, i, offset)[k];
                offset <= l.0 <= l.1 <= offset + node_text(pool, i).len()
            },
    decreases i + 1, 0int,
{
    if 0 <= i < pool.len() {
        match pool[i] {
            Inline::Bold(s) => if s.end() <= i {
                lemma_span_links_within_text(pool, s.start as int, s.len as int, offset);
                assert(node_links(pool, i, offset) == span_links(pool, s.start as int, s.len as int, offset));
                assert(node_text(pool, i) == span_text(pool, s.start as int, s.len as int));
            },
            Inline::Italic(s) => if s.end() <= i {
                lemma_span_links_within_text(pool, s.start as int, s.len as int, offset);
                assert(node_links(pool, i, offset) == span_links(pool, s.start as int, s.len as int, offset));
                assert(node_text(pool, i) == span_text(pool, s.start as int, s.len as int));
            },
            Inline::Strikethrough(s) => if s.end() <= i {
                lemma_span_links_within_text(pool, s.start as int, s.len as int, offset);
                assert(node_links(pool, i, offset) == span_links(pool, s.start as int, s.len as int, offset));
                assert(node_text(pool, i) == span_text(pool, s.start as int, s.len as int));
            },
            Inline::Link { text, url } => {
                if text.len != 0 && text.end() <= i {
                    lemma_span_links_within_text(pool, text.start as int, text.len as int, offset);
                }
                let inner = if text.len == 0 {
                    Seq::<(int, int, Seq<char>)>::empty()
                } else if text.end() <= i {
                    span_links(pool, text.start as int, text.len as int, offset)
                } else {
                    Seq::<(int, int, Seq<char>)>::empty()
                };
                assert(node_links(pool, i, offset) == inner + seq![
                    (offset, offset + node_text(pool, i).len(), url@),
                ]);
                assert forall|k: int| 0 <= k < node_links(pool, i, offset).len() implies {
                    let l = #[trigger] node_links(pool, i, offset)[k];
                    offset <= l.0 <= l.1 <= offset + node_text(pool, i).len()
                } by {
                    if k < inner.len() {
                        assert(node_links(pool, i, offset)[k] == inner[k]);
                    } else {
                        assert(node_links(pool, i, offset)[k] == (
                            offset,
                            offset + node_text(pool, i).len(),
                            url@,
                        ));
                    }
                }
            },
            Inline::Autolink { target } => {
                assert(node_links(pool, i, offset)[0] == (offset, offset + target@.len(), target@));
            },
            _ => {},
        }
    }
}

/// Whether laying out the first `len` inlines from `start` reaches, through
/// emphasis and link text, no hard break, no image and no link without text:
/// the inlines whose laid-out text differs from their plain text.
pub open spec fn span_lays_out_flat(pool: Seq<Inline>, start: int, len: int) -> bool
    decreases start + len, 1int,
{
    if start < 0 || len <= 0 {
        true
    } else {
        span_lays_out_flat(pool, start, len - 1) && node_lays_out_flat(pool, start + len - 1)
    }
}

/// Whether laying out the inline at pool index `i` reaches, through emphasis
/// and link text, no hard break, no image and no link without text.
pub open spec fn node_lays_out_flat(pool: Seq<Inline>, i: int) -> bool
    decreases i + 1, 0int,
{
    if i < 0 || i >= pool.len() {
        true
    } else {
        match pool[i] {
            Inline::HardBreak => false,
            Inline::Image { .. } => false,
            Inline::Bold(s) => if s.end() <= i {
                span_lays_out_flat(pool, s.start as int, s.len as int)
            } else {
                true
            },
            Inline::Italic(s) => if s.end() <= i {
                span_lays_out_flat(pool, s.start as int, s.len as int)
            } else {
                true
            },
            Inline::Strikethrough(s) => if s.end() <= i {
                span_lays_out_flat(pool, s.start as int, s.len as int)
            } else {
                true
            },
            Inline::Link { text, .. } => if text.len == 0 {
                false
            } else if text.end() <= i {
                span_lays_out_flat(pool, text.start as int, text.len as int)
            } else {
                true
            },
            _ => true,
        }
    }
}

/// Where a span reaches no hard break, no image and no link without text,
/// its laid-out text is exactly its flattened plain text.
pub proof fn lemma_span_text_is_flat(pool: Seq<Inline>, start: int, len: int)
    requires
        span_lays_out_flat(pool, start, len),
    ensures
        span_text(pool, start, len) == flat_span(pool, start, len),
    decreases start + len, 1int,
{
    if start >= 0 && len > 0 {
        lemma_span_text_is_flat(pool, start, len - 1);
        lemma_node_text_is_flat(pool, start + len - 1);
    }
}

/// Where an inline reaches no hard break, no image and no link without
/// text, its laid-out text is exactly its flattened plain text.
pub proof fn lemma_node_text_is_flat(pool: Seq<Inline>, i: int)
    requires
        node_lays_out_flat(pool, i),
    ensures
        node_text(pool, i) == flat_node(pool, i),
    decreases i + 1, 0int,
{
    if 0 <= i < pool.len() {
        match pool[i] {
            Inline::Bold(s) => if s.end() <= i {
                lemma_span_text_is_flat(pool, s.start as int, s.len as int);
            },
            Inline::Italic(s) => if s.end() <= i {
                lemma_span_text_is_flat(pool, s.start as int, s.len as int);
            },
            Inline::Strikethrough(s) => if s.end() <= i {
                lemma_span_text_is_flat(pool, s.start as int, s.len as int);
            },
            Inline::Link { text, .. } => if text.len != 0 && text.end() <= i {
                lemma_span_text_is_flat(pool, text.start as int, text.len as int);
            },
            _ => {},
        }
    }
}

/// An emphasis inline (bold, italic, struck) lays out exactly its content
/// span under the emphasised style: the same text, the same runs with bold
/// (heading-coloured), italic or struck style added, and the same links.
pub proof fn lemma_emphasis_lays_out_content(pool: Seq<Inline>, i: int, style: Style, offset: int)
    requires
        0 <= i < pool.len(),
        Document::inline_ordered(pool, i),
    ensures
        pool[i] matches Inline::Bold(s) ==> node_text(pool, i) == span_text(
            pool,
            s.start as int,
            s.len as int,
        ) && node_runs(pool, i, style) == span_runs(
            pool,
            s.start as int,
            s.len as int,
            style.bolded(),
        ) && node_links(pool, i, offset) == span_links(pool, s.start as int, s.len as int, offset),
        pool[i] matches Inline::Italic(s) ==> node_text(pool, i) == span_text(
            pool,
            s.start as int,
            s.len as int,
        ) && node_runs(pool, i, style) == span_runs(
            pool,
            s.start as int,
            s.len as int,
            style.italicized(),
        ) && node_links(pool, i, offset) == span_links(pool, s.start as int, s.len as int, offset),
        pool[i] matches Inline::Strikethrough(s) ==> node_text(pool, i) == span_text(
            pool,
            s.start as int,
            s.len as int,
        ) && node_runs(pool, i, style) == span_runs(
            pool,
            s.start as int,
            s.len as int,
            style.struck(),
        ) && node_links(pool, i, offset) == span_links(pool, s.start as int, s.len as int, offset),
{
}

// ---------------------------------------------------------------------------
// Flattening
// ---------------------------------------------------------------------------

/// Build a plain-text string from an inline span (used for image alt text):
/// text and code verbatim, breaks as spaces, emphasis and links by their
/// content, autolinks by their target.
pub fn flatten_inlines(md: &Document, span: InlineSpan) -> (out: String)
    requires
        md.wf(),
        md.span_ok(span),
    ensures
        out@ == flat_span(md.inlines@, span.start as int, span.len as int),
{
    let mut out = String::new();
    flatten_span(md, span, &mut out);
    out
}

fn flatten_span(md: &Document, span: InlineSpan, out: &mut String)
    requires
        md.wf(),
        md.span_ok(span),
    ensures
        final(out)@ == old(out)@ + flat_span(md.inlines@, span.start as int, span.len as int),
    decreases span.end(), 1int,
{
    let ghost pool = md.inlines@;
    let mut k: u32 = 0;
    while k < span.len
        invariant
            md.wf(),
            md.span_ok(span),
            pool == md.inlines@,
            k <= span.len,
            out@ == old(out)@ + flat_span(pool, span.start as int, k as int),
        decreases span.len - k,
    {
        let plen = md.inlines.len();
        assert(span.start + k < plen);
        let i = (span.start as u64 + k as u64) as usize;
        assert(i == span.start + k);
        flatten_inline(md, i, out);
        assert(out@ =~= old(out)@ + flat_span(pool, span.start as int, k + 1));
        k += 1;
    }
}

fn flatten_inline(md: &Document, i: usize, out: &mut String)
    requires
        md.wf(),
        i < md.inlines@.len(),
    ensures
        final(out)@ == old(out)@ + flat_node(md.inlines@, i as int),
    decreases i + 1, 0int,
{
    assert(Document::inline_ordered(md.inlines@, i as int));
    match &md.inlines[i] {
        Inline::Text(t) => out.append(t.as_str()),
        Inline::SoftBreak | Inline::HardBreak => {
            proof {
                reveal_strlit(" ");
            }
            out.append(" ");
        },
        Inline::Bold(s) | Inline::Italic(s) | Inline::Strikethrough(s) => flatten_span(md, *s, out),
        Inline::Code(s) | Inline::RawHtml(s) => out.append(s.as_str()),
        Inline::Link { text, .. } => flatten_span(md, *text, out),
        Inline::Image { alt, .. } => flatten_span(md, *alt, out),
        Inline::Autolink { target } => out.append(target.as_str()),
        Inline::FootnoteRef { label } => {
            proof {
                reveal_strlit("[^");
                reveal_strlit("]");
            }
            out.append("[^");
            out.append(label.as_str());
            out.append("]");
            assert(out@ =~= old(out)@ + footnote_text(label@));
        },
    }
}

// ---------------------------------------------------------------------------
// Laying out
// ---------------------------------------------------------------------------

/// Whether every link of `after` past its first `kept` lies within the text
/// `after` holds from character `from` on.
pub open spec fn links_within_from(after: InlineLayout, kept: int, from: int) -> bool {
    forall|k: int|
        kept <= k < after.link_views().len() ==> {
            let l = #[trigger] after.link_views()[k];
            from <= l.0 <= l.1 <= after.text@.len()
        }
}

/// The link ranges recorded into `after` past the first `kept` lie within
/// the text appended after character `from`, when `after`'s links are the
/// first `kept` followed by `added`, each within `from..from + appended`.
proof fn lemma_appended_links_within(
    after: InlineLayout,
    before_links: Seq<(int, int, Seq<char>)>,
    added: Seq<(int, int, Seq<char>)>,
    from: int,
)
    requires
        after.link_views() == before_links + added,
        forall|k: int|
            0 <= k < added.len() ==> {
                let l = #[trigger] added[k];
                from <= l.0 <= l.1 <= after.text@.len()
            },
    ensures
        links_within_from(after, before_links.len() as int, from),
{
    assert forall|k: int| before_links.len() <= k < after.link_views().len() implies {
        let l = #[trigger] after.link_views()[k];
        from <= l.0 <= l.1 <= after.text@.len()
    } by {
        assert(after.link_views()[k] == added[k - before_links.len()]);
    }
}

/// Append a span of inlines from `md` to `layout`, under the inherited
/// `style`. Every link and autolink is recorded in `layout.links` with
/// character indices into `layout.text`.
pub fn append_inlines(md: &Document, span: InlineSpan, layout: &mut InlineLayout, style: Style)
    requires
        md.wf(),
        md.span_ok(span),
    ensures
        final(layout).text@ == old(layout).text@ + span_text(
            md.inlines@,
            span.start as int,
            span.len as int,
        ),
        final(layout).run_views() == old(layout).run_views() + span_runs(
            md.inlines@,
            span.start as int,
            span.len as int,
            style,
        ),
        final(layout).link_views() == old(layout).link_views() + span_links(
            md.inlines@,
            span.start as int,
            span.len as int,
            old(layout).text@.len() as int,
        ),
        links_within_from(
            *final(layout),
            old(layout).link_views().len() as int,
            old(layout).text@.len() as int,
        ),
        old(layout).consistent() ==> final(layout).consistent(),
    decreases span.end(), 1int,
{
    let ghost pool = md.inlines@;
    let ghost offset = old(layout).text@.len() as int;
    let mut k: u32 = 0;
    while k < span.len
        invariant
            md.wf(),
            md.span_ok(span),
            pool == md.inlines@,
            k <= span.len,
            offset == old(layout).text@.len(),
            layout.text@ == old(layout).text@ + span_text(pool, span.start as int, k as int),
            layout.run_views() == old(layout).run_views() + span_runs(
                pool,
                span.start as int,
                k as int,
                style,
            ),
            layout.link_views() == old(layout).link_views() + span_links(
                pool,
                span.start as int,
                k as int,
                offset,
            ),
        decreases span.len - k,
    {
        let plen = md.inlines.len();
        assert(span.start + k < plen);
        let i = (span.start as u64 + k as u64) as usize;
        assert(i == span.start + k);
        append_inline(md, i, layout, style);
        assert(layout.text@ =~= old(layout).text@ + span_text(pool, span.start as int, k + 1));
        assert(layout.run_views() =~= old(layout).run_views() + span_runs(
            pool,
            span.start as int,
            k + 1,
            style,
        ));
        assert(layout.link_views() =~= old(layout).link_views() + span_links(
            pool,
            span.start as int,
            k + 1,
            offset,
        ));
        k += 1;
    }
    proof {
        let (start, len) = (span.start as int, span.len as int);
        lemma_span_links_within_text(pool, start, len, offset);
        lemma_appended_links_within(
            *layout,
            old(layout).link_views(),
            span_links(pool, start, len, offset),
            offset,
        );
        if old(layout).consistent() {
            lemma_span_runs_spell_text(pool, start, len, style);
            lemma_runs_text_concat(old(layout).run_views(), span_runs(pool, start, len, style));
            let before = old(layout).link_views();
            let added = span_links(pool, start, len, offset);
            assert forall|k: int| 0 <= k < layout.link_views().len() implies {
                let l = #[trigger] layout.link_views()[k];
                0 <= l.0 <= l.1 <= layout.text@.len()
            } by {
                if k < before.len() {
                    assert(layout.link_views()[k] == before[k]);
                } else {
                    assert(layout.link_views()[k] == added[k - before.len()]);
                }
            }
        }
    }
}

/// Append the inline at pool index `i` to `layout`, under `style`: its
/// runs, and the ranges of the links it holds, indexed into `layout.text`.
pub fn append_inline(md: &Document, i: usize, layout: &mut InlineLayout, style: Style)
    requires
        md.wf(),
        i < md.inlines@.len(),
    ensures
        final(layout).text@ == old(layout).text@ + node_text(md.inlines@, i as int),
        final(layout).run_views() == old(layout).run_views() + node_runs(
            md.inlines@,
            i as int,
            style,
        ),
        final(layout).link_views() == old(layout).link_views() + node_links(
            md.inlines@,
            i as int,
            old(layout).text@.len() as int,
        ),
        links_within_from(
            *final(layout),
            old(layout).link_views().len() as int,
            old(layout).text@.len() as int,
        ),
    decreases i + 1, 0int,
{
    assert(Document::inline_ordered(md.inlines@, i as int));
    match &md.inlines[i] {
        Inline::Text(t) => {
            layout.push_run(t.clone(), style, RunKind::Text);
            assert(layout.run_views() =~= old(layout).run_views() + node_runs(md.inlines@, i as int, style));
            assert(layout.link_views() =~= old(layout).link_views() + seq![]);
        },
        Inline::SoftBreak => {
            proof {
                reveal_strlit(" ");
            }
            let piece = String::from_str(" ");
            assert(piece@ =~= seq![' ']);
            layout.push_run(piece, style, RunKind::Text);
            assert(layout.run_views() =~= old(layout).run_views() + node_runs(md.inlines@, i as int, style));
            assert(layout.link_views() =~= old(layout).link_views() + seq![]);
        },
        Inline::HardBreak => {
            proof {
                reveal_strlit("\n");
            }
            let piece = String::from_str("\n");
            assert(piece@ =~= seq!['\n']);
            layout.push_run(piece, style, RunKind::Text);
            assert(layout.run_views() =~= old(layout).run_views() + node_runs(md.inlines@, i as int, style));
            assert(layout.link_views() =~= old(layout).link_views() + seq![]);
        },
        Inline::Bold(s) => append_inlines(md, *s, layout, style.with_bold()),
        Inline::Italic(s) => append_inlines(md, *s, layout, style.with_italic()),
        Inline::Strikethrough(s) => append_inlines(md, *s, layout, style.with_strikethrough()),
        Inline::Code(c) => {
            layout.push_run(c.clone(), style, RunKind::Code);
            assert(layout.run_views() =~= old(layout).run_views() + node_runs(md.inlines@, i as int, style));
            assert(layout.link_views() =~= old(layout).link_views() + seq![]);
        },
        Inline::RawHtml(h) => {
            layout.push_run(h.clone(), style, RunKind::RawHtml);
            assert(layout.run_views() =~= old(layout).run_views() + node_runs(md.inlines@, i as int, style));
            assert(layout.link_views() =~= old(layout).link_views() + seq![]);
        },
        Inline::Link { text, url } => {
            let char_start = layout.text.as_str().unicode_len();
            let linked = style.with_link();
            if text.is_empty() {
                layout.push_run(url.clone(), linked, RunKind::Text);
                assert(layout.run_views() =~= old(layout).run_views() + node_runs(md.inlines@, i as int, style));
            } else {
                append_inlines(md, *text, layout, linked);
            }
            let char_end = layout.text.as_str().unicode_len();
            layout.push_link(char_start, char_end, url.clone());
            assert(layout.link_views() =~= old(layout).link_views() + node_links(
                md.inlines@,
                i as int,
                old(layout).text@.len() as int,
            ));
        },
        Inline::Image { alt, url } => {
            let mut label = flatten_inlines(md, *alt);
            if label.as_str().is_empty() {
                label.append(url.as_str());
            }
            proof {
                reveal_strlit("\u{1f5bc} ");
            }
            let mut shown = String::from_str("\u{1f5bc} ");
            shown.append(label.as_str());
            assert(shown@ =~= node_text(md.inlines@, i as int));
            layout.push_run(shown, style, RunKind::Image);
            assert(layout.run_views() =~= old(layout).run_views() + node_runs(md.inlines@, i as int, style));
            assert(layout.link_views() =~= old(layout).link_views() + seq![]);
        },
        Inline::Autolink { target } => {
            let char_start = layout.text.as_str().unicode_len();
            layout.push_run(target.clone(), style.with_link(), RunKind::Text);
            let char_end = layout.text.as_str().unicode_len();
            layout.push_link(char_start, char_end, target.clone());
            assert(layout.run_views() =~= old(layout).run_views() + node_runs(md.inlines@, i as int, style));
            assert(layout.link_views() =~= old(layout).link_views() + node_links(
                md.inlines@,
                i as int,
                old(layout).text@.len() as int,
            ));
        },
        Inline::FootnoteRef { label } => {
            proof {
                reveal_strlit("[^");
                reveal_strlit("]");
            }
            let mut shown = String::from_str("[^");
            shown.append(label.as_str());
            shown.append("]");
            assert(shown@ =~= footnote_text(label@));
            layout.push_run(shown, style, RunKind::Text);
            assert(layout.run_views() =~= old(layout).run_views() + node_runs(md.inlines@, i as int, style));
            assert(layout.link_views() =~= old(layout).link_views() + seq![]);
        },
    }
    proof {
        let offset = old(layout).text@.len() as int;
        lemma_node_links_within_text(md.inlines@, i as int, offset);
        lemma_appended_links_within(
            *layout,
            old(layout).link_views(),
            node_links(md.inlines@, i as int, offset),
            offset,
        );
    }
}

/// Lay out a span of inlines into a fresh layout, starting from `style`.
pub fn layout_inlines(md: &Document, span: InlineSpan, style: Style) -> (layout: InlineLayout)
    requires
        md.wf(),
        md.span_ok(span),
    ensures
        layout.text@ == span_text(md.inlines@, span.start as int, span.len as int),
        layout.run_views() == span_runs(md.inlines@, span.start as int, span.len as int, style),
        layout.link_views() == span_links(md.inlines@, span.start as int, span.len as int, 0),
        layout.consistent(),
{
    let mut layout = InlineLayout::new();
    append_inlines(md, span, &mut layout, style);
    assert(layout.text@ =~= span_text(md.inlines@, span.start as int, span.len as int));
    assert(layout.run_views() =~= span_runs(md.inlines@, span.start as int, span.len as int, style));
    assert(layout.link_views() =~= span_links(md.inlines@, span.start as int, span.len as int, 0));
    layout
}

// ---------------------------------------------------------------------------
// How a run is painted
// ---------------------------------------------------------------------------

/// Which face a run is set in.
#[derive(Clone, Copy, Debug)]
pub enum Face {
    /// The face of the enclosing text: the bold family when the run is bold.
    Text,
    /// Monospace at the body size (inline code).
    Monospace,
    /// Monospace a little smaller than the body (raw HTML).
    SmallMonospace,
}

/// The colours, decorations and face a run is drawn with.
#[derive(Clone, Copy, Debug)]
pub struct RunPaint {
    pub color: Color,
    /// The fill behind the text; `None` keeps the enclosing block's fill.
    pub background: Option<Color>,
    pub italic: bool,
    /// The underline colour, for links.
    pub underline: Option<Color>,
    /// The strikethrough colour.
    pub strikethrough: Option<Color>,
    pub face: Face,
}

/// The token colour a tint stands for, where `base` is the colour of the
/// enclosing block.
pub open spec fn tint_color(tokens: Tokens, base: Color, tint: Tint) -> Color {
    match tint {
        Tint::Base => base,
        Tint::Heading => tokens.heading,
        Tint::Accent => tokens.accent,
    }
}

/// How a run of `kind` under `style` is painted: text in its tint; inline
/// code in `muted_foreground` on a `muted` fill, in monospace; image labels
/// in `muted_foreground`, italic; raw HTML in `muted_foreground`, in a smaller
/// monospace. Links are underlined in the accent colour, struck text is
/// struck through in its tint.
pub open spec fn paint_of(tokens: Tokens, base: Color, style: Style, kind: RunKind) -> RunPaint {
    let tinted = tint_color(tokens, base, style.tint);
    RunPaint {
        color: match kind {
            RunKind::Text => tinted,
            _ => tokens.muted_foreground,
        },
        background: match kind {
            RunKind::Code => Some(tokens.muted),
            _ => None,
        },
        italic: style.italic || kind is Image,
        underline: if style.link {
            Some(tokens.accent)
        } else {
            None
        },
        strikethrough: if style.strikethrough {
            Some(tinted)
        } else {
            None
        },
        face: match kind {
            RunKind::Code => Face::Monospace,
            RunKind::RawHtml => Face::SmallMonospace,
            _ => Face::Text,
        },
    }
}

/// How `run` is painted against the `tokens`, inside a block whose text
/// colour is `base`.
pub fn run_paint(tokens: &Tokens, base: Color, run: &Run) -> (paint: RunPaint)
    ensures
        paint == paint_of(*tokens, base, run.style, run.kind),
{
    let style = run.style;
    let tinted = match style.tint {
        Tint::Base => base,
        Tint::Heading => tokens.heading,
        Tint::Accent => tokens.accent,
    };
    let (color, background, face) = match run.kind {
        RunKind::Text => (tinted, None, Face::Text),
        RunKind::Code => (tokens.muted_foreground, Some(tokens.muted), Face::Monospace),
        RunKind::Image => (tokens.muted_foreground, None, Face::Text),
        RunKind::RawHtml => (tokens.muted_foreground, None, Face::SmallMonospace),
    };
    let is_image = match run.kind {
        RunKind::Image => true,
        _ => false,
    };
    RunPaint {
        color,
        background,
        italic: style.italic || is_image,
        underline: if style.link {
            Some(tokens.accent)
        } else {
            None
        },
        strikethrough: if style.strikethrough {
            Some(tinted)
        } else {
            None
        },
        face,
    }
}

// ---------------------------------------------------------------------------
// Link hit-testing and bold family resolution
// ---------------------------------------------------------------------------

/// Whether the link range covers character index `index`.
pub open spec fn covers(link: (int, int, Seq<char>), index: int) -> bool {
    link.0 <= index < link.1
}

/// The URL of the first link whose character range covers `index`, if any:
/// what a pointer over that character of the laid-out text would open.
pub fn link_url_at(links: &Vec<LinkRange>, index: usize) -> (url: Option<String>)
    ensures
        match url {
            Some(u) => exists|k: int|
                0 <= k < links@.len() && covers(#[trigger] links@[k]@, index as int) && u@
                    == links@[k].url@ && forall|j: int|
                    0 <= j < k ==> !covers(#[trigger] links@[j]@, index as int),
            None => forall|k: int| 0 <= k < links@.len() ==> !covers(#[trigger] links@[k]@, index as int),
        },
{
    let mut k: usize = 0;
    while k < links.len()
        invariant
            k <= links@.len(),
            forall|j: int| 0 <= j < k ==> !covers(#[trigger] links@[j]@, index as int),
        decreases links@.len() - k,
    {
        let link = &links[k];
        if index >= link.char_start && index < link.char_end {
            let url = link.url.clone();
            assert(covers(links@[k as int]@, index as int));
            return Some(url);
        }
        k += 1;
    }
    None
}

/// The bold font families probed at render time, in priority order: the
/// library's own face, then its companion's regular and semibold faces, then
/// the generic `"Bold"` convention.
pub open spec fn bold_family(k: int) -> Seq<char> {
    if k == 0 {
        "tektite-bold"@
    } else if k == 1 {
        "glazier-bold"@
    } else if k == 2 {
        "glazier-semibold"@
    } else {
        "Bold"@
    }
}

/// The number of bold families probed.
pub open spec fn bold_family_count() -> int {
    4
}

/// Whether a family named `name` is among the registered `families`.
pub open spec fn is_registered(families: Seq<String>, name: Seq<char>) -> bool {
    exists|j: int| 0 <= j < families.len() && (#[trigger] families[j])@ == name
}

fn bold_family_name(k: usize) -> (name: &'static str)
    requires
        k < 4,
    ensures
        name@ == bold_family(k as int),
{
    if k == 0 {
        "tektite-bold"
    } else if k == 1 {
        "glazier-bold"
    } else if k == 2 {
        "glazier-semibold"
    } else {
        "Bold"
    }
}

fn family_registered(families: &Vec<String>, name: &String) -> (b: bool)
    ensures
        b == is_registered(families@, name@),
{
    let mut j: usize = 0;
    while j < families.len()
        invariant
            j <= families@.len(),
            forall|i: int| 0 <= i < j ==> (#[trigger] families@[i])@ != name@,
        decreases families@.len() - j,
    {
        if families[j] == *name {
            assert(families@[j as int]@ == name@);
            return true;
        }
        j += 1;
    }
    false
}

/// Resolve the first registered bold family among `families` (the names of
/// the families registered with the font system), in the priority order of
/// [`bold_family`]; `None` when none is registered, in which case bold text
/// falls back to the proportional face with extra letter spacing.
pub fn resolve_bold(families: &Vec<String>) -> (family: Option<String>)
    ensures
        match family {
            Some(f) => exists|k: int|
                0 <= k < bold_family_count() && f@ == bold_family(k) && is_registered(
                    families@,
                    bold_family(k),
                ) && forall|j: int|
                    0 <= j < k ==> !is_registered(families@, #[trigger] bold_family(j)),
            None => forall|k: int|
                0 <= k < bold_family_count() ==> !is_registered(families@, #[trigger] bold_family(k)),
        },
{
    let mut k: usize = 0;
    while k < 4
        invariant
            k <= 4,
            forall|j: int| 0 <= j < k ==> !is_registered(families@, #[trigger] bold_family(j)),
        decreases 4 - k,
    {
        let name = String::from_str(bold_family_name(k));
        if family_registered(families, &name) {
            return Some(name);
        }
        k += 1;
    }
    None
}

} // verus!
