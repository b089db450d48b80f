//! [`CodeBlock`] — a fenced or indented code block in Obsidian style.
//!
//! The code is drawn on a `muted` background with rounded corners, with an
//! optional language label top-right. Code nested in a container comes as
//! dedented pool lines, each rebuilt as its synthetic padding, its text and a
//! newline.

use vstd::prelude::*;

use crate::document::{Document, LineRange, PoolLine};

verus! {

/// One pool line as displayed: `pad` spaces, the text, a newline.
pub open spec fn padded_line(line: PoolLine) -> Seq<char> {
    Seq::new(line.pad as nat, |i: int| ' ') + line.text@ + seq!['\n']
}

/// The display text of `len` pool lines from `start`.
pub open spec fn lines_text(lines: Seq<PoolLine>, start: int, len: int) -> Seq<char>
    decreases len,
{
    if len <= 0 {
        seq![]
    } else {
        lines_text(lines, start, len - 1) + padded_line(lines[start + len - 1])
    }
}

/// The display text of the pool lines in `range`.
pub fn code_lines_text(md: &Document, range: LineRange) -> (text: String)
    requires
        md.lines_ok(range),
    ensures
        text@ == lines_text(md.lines@, range.start as int, range.len as int),
{
    let mut buf = String::new();
    let mut k: u32 = 0;
    while k < range.len
        invariant
            md.lines_ok(range),
            k <= range.len,
            buf@ == lines_text(md.lines@, range.start as int, k as int),
        decreases range.len - k,
    {
        let plen = md.lines.len();
        assert(range.start + k < plen);
        let i = (range.start as u64 + k as u64) as usize;
        assert(i == range.start + k);
        let line = &md.lines[i];
        let ghost base = buf@;
        let mut p: u8 = 0;
        while p < line.pad
            invariant
                p <= line.pad,
                buf@ == base + Seq::new(p as nat, |j: int| ' '),
            decreases line.pad - p,
        {
            proof {
                reveal_strlit(" ");
            }
            assert(" "@ =~= seq![' ']);
            buf.append(" ");
            assert(Seq::new((p + 1) as nat, |j: int| ' ') =~= Seq::new(p as nat, |j: int| ' ').push(' '));
            assert(buf@ =~= base + Seq::new((p + 1) as nat, |j: int| ' '));
            p += 1;
        }
        buf.append(line.text.as_str());
        proof {
            reveal_strlit("\n");
        }
        assert("\n"@ =~= seq!['\n']);
        buf.append("\n");
        assert(buf@ =~= lines_text(md.lines@, range.start as int, k + 1));
        k += 1;
    }
    buf
}

/// Where a code block's text comes from.
#[derive(Clone, Copy, Debug)]
pub enum CodeSource<'src> {
    /// A single contiguous source slice.
    Slice(&'src str),
    /// Dedented lines in the line pool.
    Lines(LineRange),
}

/// An Obsidian-style fenced / indented code block.
pub struct CodeBlock<'src> {
    pub md: &'src Document,
    pub source: CodeSource<'src>,
    pub language: Option<&'src str>,
}

impl<'src> CodeBlock<'src> {
    /// Build from a single contiguous source slice (most code blocks).
    pub fn new(md: &'src Document, language: Option<&'src str>, code: &'src str) -> (block: Self)
        ensures
            block.md == md,
            block.language == language,
            block.source == CodeSource::Slice(code),
    {
        CodeBlock { md, source: CodeSource::Slice(code), language }
    }

    /// Build from a dedented line pool (code blocks nested in containers).
    pub fn from_lines(md: &'src Document, language: Option<&'src str>, lines: LineRange) -> (block: Self)
        ensures
            block.md == md,
            block.language == language,
            block.source == CodeSource::Lines(lines),
    {
        CodeBlock { md, source: CodeSource::Lines(lines), language }
    }

    /// Whether the block's source lies within its document.
    pub open spec fn source_ok(&self) -> bool {
        match self.source {
            CodeSource::Lines(r) => self.md.lines_ok(r),
            CodeSource::Slice(_) => true,
        }
    }

    /// The text the block displays.
    pub fn text(&self) -> (text: String)
        requires
            self.source_ok(),
        ensures
            text@ == match self.source {
                CodeSource::Slice(s) => s@,
                CodeSource::Lines(r) => lines_text(self.md.lines@, r.start as int, r.len as int),
            },
    {
        match self.source {
            CodeSource::Slice(s) => s.to_owned(),
            CodeSource::Lines(range) => code_lines_text(self.md, range),
        }
    }
}

} // verus!
