# tektite

Obsidian-style Markdown rendering for egui.

- `src/` is the verified library: the document model the renderer reads
  (`document.rs`), inline layout into styled runs and link ranges
  (`inline.rs`), the colour tokens and their mapping onto the GUI's visuals
  slots (`tokens.rs`), one type per block kind (`components/`), and the
  section dispatch (`lib.rs`).
- `app/` is the egui side: converting a `marki_parse::MarkdownFile` into a
  `Document`, the widgets that paint each block, and the token install/read
  path through an `egui::Context`.
- `tests/` exercises the library on documents parsed from Markdown text and
  on the visuals of egui's dark and light themes.
