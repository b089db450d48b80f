//! [`UnorderedList`] and [`OrderedList`] — Markdown lists in Obsidian style.
//!
//! Bullets use the `•` glyph; ordered items show their number followed by
//! the list's delimiter, counting up from the list's start number. Only the
//! list-item children of a list are entries; nested sub-lists are rendered
//! through each item's own child sections.

use vstd::prelude::*;

use crate::document::{
    child_indices, is_list_item, lemma_select_prefix_len, lemma_select_step, select, Document,
    OrderedListDelimiter, Section, SectionRange,
};

verus! {

/// The character of a decimal digit.
pub open spec fn digit_char(d: int) -> char {
    if d == 0 {
        '0'
    } else if d == 1 {
        '1'
    } else if d == 2 {
        '2'
    } else if d == 3 {
        '3'
    } else if d == 4 {
        '4'
    } else if d == 5 {
        '5'
    } else if d == 6 {
        '6'
    } else if d == 7 {
        '7'
    } else if d == 8 {
        '8'
    } else {
        '9'
    }
}

/// The decimal representation of `n`, without leading zeros.
pub open spec fn decimal(n: nat) -> Seq<char>
    decreases n,
{
    if n < 10 {
        seq![digit_char(n as int)]
    } else {
        decimal(n / 10).push(digit_char((n % 10) as int))
    }
}

/// The character written after an ordered item's number.
pub open spec fn delimiter_char(d: OrderedListDelimiter) -> char {
    match d {
        OrderedListDelimiter::Dot => '.',
        OrderedListDelimiter::Paren => ')',
    }
}

/// The marker of the `k`-th item: a bullet for an unordered list, else the
/// item's number (`start + k`) and the delimiter.
pub open spec fn marker(ordered: Option<(u32, OrderedListDelimiter)>, k: int) -> Seq<char> {
    match ordered {
        None => seq!['\u{2022}'],
        Some((start, d)) => decimal((start + k) as nat).push(delimiter_char(d)),
    }
}

/// The pool indices of the list items among the direct children of `items`.
pub open spec fn list_items(pool: Seq<Section>, items: SectionRange) -> Seq<int> {
    select(pool, child_indices(pool, items), |s: Section| is_list_item(s))
}

fn digit_str(d: u32) -> (s: &'static str)
    requires
        d < 10,
    ensures
        s@ == seq![digit_char(d as int)],
{
    proof {
        reveal_strlit("0");
        reveal_strlit("1");
        reveal_strlit("2");
        reveal_strlit("3");
        reveal_strlit("4");
        reveal_strlit("5");
        reveal_strlit("6");
        reveal_strlit("7");
        reveal_strlit("8");
        reveal_strlit("9");
    }
    let s = if d == 0 {
        "0"
    } else if d == 1 {
        "1"
    } else if d == 2 {
        "2"
    } else if d == 3 {
        "3"
    } else if d == 4 {
        "4"
    } else if d == 5 {
        "5"
    } else if d == 6 {
        "6"
    } else if d == 7 {
        "7"
    } else if d == 8 {
        "8"
    } else {
        "9"
    };
    assert(s@ =~= seq![digit_char(d as int)]);
    s
}

/// The decimal representation of `n`.
pub fn decimal_string(n: u32) -> (s: String)
    ensures
        s@ == decimal(n as nat),
    decreases n,
{
    if n < 10 {
        String::from_str(digit_str(n))
    } else {
        let mut s = decimal_string(n / 10);
        s.append(digit_str(n % 10));
        s
    }
}

fn marker_string(ordered: Option<(u32, OrderedListDelimiter)>, n: u32, k: Ghost<int>) -> (s: String)
    requires
        ordered matches Some((start, _)) ==> n == start + k@,
    ensures
        s@ == marker(ordered, k@),
{
    match ordered {
        None => {
            proof {
                reveal_strlit("\u{2022}");
            }
            let s = String::from_str("\u{2022}");
            assert(s@ =~= seq!['\u{2022}']);
            s
        },
        Some((_, d)) => {
            let mut s = decimal_string(n);
            let delim = match d {
                OrderedListDelimiter::Dot => {
                    proof {
                        reveal_strlit(".");
                    }
                    "."
                },
                OrderedListDelimiter::Paren => {
                    proof {
                        reveal_strlit(")");
                    }
                    ")"
                },
            };
            assert(delim@ =~= seq![delimiter_char(d)]);
            s.append(delim);
            s
        },
    }
}

/// One list entry: the marker drawn in its gutter and the child sections
/// of its item.
#[derive(Debug)]
pub struct ListEntry {
    pub marker: String,
    pub children: SectionRange,
}

/// Number of list items among the direct children of `items`.
pub fn list_item_count(md: &Document, items: SectionRange) -> (n: usize)
    requires
        md.range_ok(items),
    ensures
        n == list_items(md.section_pool@, items).len(),
{
    let ghost pool = md.section_pool@;
    let ghost idxs = child_indices(pool, items);
    let ghost keep = |s: Section| is_list_item(s);
    let children = md.child_sections(items);
    let mut n: usize = 0;
    let mut k: usize = 0;
    while k < children.len()
        invariant
            pool == md.section_pool@,
            idxs == child_indices(pool, items),
            keep == (|s: Section| is_list_item(s)),
            children@.len() == idxs.len(),
            forall|j: int| 0 <= j < children@.len() ==> children@[j] as int == #[trigger] idxs[j],
            forall|j: int| 0 <= j < children@.len() ==> #[trigger] children@[j] < pool.len(),
            k <= children@.len(),
            n == select(pool, idxs.take(k as int), keep).len(),
            n <= k,
        decreases children@.len() - k,
    {
        proof {
            lemma_select_step(pool, idxs, k as int, keep);
        }
        let idx = children[k];
        assert(idx == idxs[k as int]);
        if let Section::ListItem { .. } = &md.section_pool[idx] {
            n += 1;
        }
        k += 1;
    }
    assert(idxs.take(k as int) =~= idxs);
    n
}

/// The entries of a list: one per list-item child of `items`, in order, the
/// `k`-th marked by [`marker`]`(ordered, k)`. Children that are not list items
/// are skipped and do not advance the count.
fn list_entries(md: &Document, items: SectionRange, ordered: Option<(u32, OrderedListDelimiter)>) -> (entries: Vec<ListEntry>)
    requires
        md.range_ok(items),
        ordered matches Some((start, _)) ==> start + list_items(md.section_pool@, items).len()
            <= u32::MAX,
    ensures
        entries@.len() == list_items(md.section_pool@, items).len(),
        forall|k: int|
            0 <= k < entries@.len() ==> {
                &&& (#[trigger] entries@[k]).marker@ == marker(ordered, k)
                &&& md.section_pool@[list_items(md.section_pool@, items)[k]] == (Section::ListItem {
                    children: entries@[k].children,
                })
            },
{
    let ghost pool = md.section_pool@;
    let ghost idxs = child_indices(pool, items);
    let ghost keep = |s: Section| is_list_item(s);
    let ghost total = list_items(pool, items).len();
    let children = md.child_sections(items);
    let mut entries: Vec<ListEntry> = Vec::new();
    let mut next: u32 = match ordered {
        Some((start, _)) => start,
        None => 0,
    };
    let mut k: usize = 0;
    while k < children.len()
        invariant
            pool == md.section_pool@,
            idxs == child_indices(pool, items),
            keep == (|s: Section| is_list_item(s)),
            total == select(pool, idxs, keep).len(),
            ordered matches Some((start, _)) ==> start + total <= u32::MAX,
            ordered matches Some((start, _)) ==> next == start + entries@.len(),
            children@.len() == idxs.len(),
            forall|j: int| 0 <= j < children@.len() ==> children@[j] as int == #[trigger] idxs[j],
            forall|j: int| 0 <= j < children@.len() ==> #[trigger] children@[j] < pool.len(),
            k <= children@.len(),
            entries@.len() == select(pool, idxs.take(k as int), keep).len(),
            forall|m: int|
                0 <= m < entries@.len() ==> {
                    &&& (#[trigger] entries@[m]).marker@ == marker(ordered, m)
                    &&& pool[select(pool, idxs.take(k as int), keep)[m]] == (Section::ListItem {
                        children: entries@[m].children,
                    })
                },
        decreases children@.len() - k,
    {
        proof {
            lemma_select_step(pool, idxs, k as int, keep);
            lemma_select_prefix_len(pool, idxs, k + 1, keep);
        }
        let idx = children[k];
        assert(idx == idxs[k as int]);
        if let Section::ListItem { children: item_children } = &md.section_pool[idx] {
            let m = Ghost(entries@.len() as int);
            let text = marker_string(ordered, next, m);
            let ghost before = entries@;
            let ghost sel = select(pool, idxs.take(k as int), keep);
            entries.push(ListEntry { marker: text, children: *item_children });
            if ordered.is_some() {
                next = next + 1;
            }
            assert forall|m: int| 0 <= m < entries@.len() implies {
                &&& (#[trigger] entries@[m]).marker@ == marker(ordered, m)
                &&& pool[select(pool, idxs.take(k + 1), keep)[m]] == (Section::ListItem {
                    children: entries@[m].children,
                })
            } by {
                if m < before.len() {
                    assert(entries@[m] == before[m]);
                    assert(select(pool, idxs.take(k + 1), keep)[m] == sel[m]);
                }
            }
        }
        k += 1;
    }
    assert(idxs.take(k as int) =~= idxs);
    entries
}

/// An Obsidian-style unordered (bullet) list.
pub struct UnorderedList<'src> {
    pub md: &'src Document,
    pub items: SectionRange,
    /// A tight list has no gap between its items.
    pub tight: bool,
}

impl<'src> UnorderedList<'src> {
    /// Construct an unordered list.
    pub fn new(md: &'src Document, tight: bool, items: SectionRange) -> (list: Self)
        ensures
            list.md == md,
            list.tight == tight,
            list.items == items,
    {
        UnorderedList { md, items, tight }
    }

    /// The list's entries, each marked with a bullet.
    pub fn entries(&self) -> (entries: Vec<ListEntry>)
        requires
            self.md.range_ok(self.items),
        ensures
            entries@.len() == list_items(self.md.section_pool@, self.items).len(),
            forall|k: int|
                0 <= k < entries@.len() ==> {
                    &&& (#[trigger] entries@[k]).marker@ == marker(None, k)
                    &&& self.md.section_pool@[list_items(self.md.section_pool@, self.items)[k]]
                        == (Section::ListItem { children: entries@[k].children })
                },
    {
        list_entries(self.md, self.items, None)
    }
}

/// An Obsidian-style ordered (numbered) list.
pub struct OrderedList<'src> {
    pub md: &'src Document,
    pub items: SectionRange,
    /// A tight list has no gap between its items.
    pub tight: bool,
    /// The number of the first item.
    pub start: u32,
    pub delimiter: OrderedListDelimiter,
}

impl<'src> OrderedList<'src> {
    /// Construct an ordered list.
    pub fn new(
        md: &'src Document,
        tight: bool,
        start: u32,
        delimiter: OrderedListDelimiter,
        items: SectionRange,
    ) -> (list: Self)
        ensures
            list.md == md,
            list.tight == tight,
            list.start == start,
            list.delimiter == delimiter,
            list.items == items,
    {
        OrderedList { md, items, tight, start, delimiter }
    }

    /// The list's entries, numbered up from `start`. The count must not pass
    /// `u32::MAX`.
    pub fn entries(&self) -> (entries: Vec<ListEntry>)
        requires
            self.md.range_ok(self.items),
            self.start + list_items(self.md.section_pool@, self.items).len() <= u32::MAX,
        ensures
            entries@.len() == list_items(self.md.section_pool@, self.items).len(),
            forall|k: int|
                0 <= k < entries@.len() ==> {
                    &&& (#[trigger] entries@[k]).marker@ == marker(
                        Some((self.start, self.delimiter)),
                        k,
                    )
                    &&& self.md.section_pool@[list_items(self.md.section_pool@, self.items)[k]]
                        == (Section::ListItem { children: entries@[k].children })
                },
    {
        list_entries(self.md, self.items, Some((self.start, self.delimiter)))
    }
}

} // verus!
