//! One type per block kind, each holding what its widget reads and computing
//! what its widget draws.

pub mod blockquote;
pub mod code_block;
pub mod heading;
pub mod horizontal_rule;
pub mod list;
pub mod paragraph;
pub mod table;

pub use blockquote::Blockquote;
pub use code_block::{CodeBlock, CodeSource};
pub use heading::Heading;
pub use horizontal_rule::HorizontalRule;
pub use list::{ListEntry, OrderedList, UnorderedList};
pub use paragraph::Paragraph;
pub use table::{CellLayout, RowLayout, Table, TableLayout};
