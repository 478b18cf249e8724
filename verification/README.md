# worksheet

A library for building arithmetic worksheets: problem kinds and their input
fields, terms drawn at random within bounds, the Typst math each problem is
written as, the Typst source of a two-column worksheet, and the editor state
behind the worksheet window. Every function in `src/` carries a contract; Verus
proves all of them except two trusted wrappers whose contracts it takes on
trust: `random_in` in `src/generate.rs` (a call of `rand::random_range`) and
`debug_terms` in `src/problems.rs` (std's `{:?}` formatting of a term list).

- `src/text.rs` — decimal text of integers.
- `src/problems.rs` — operations, problem kinds, terms, problems, and how each is written.
- `src/generate.rs` — drawing fresh terms (the only call into `rand`).
- `src/sheet.rs` — the Typst source of a worksheet.
- `src/editor.rs` — the editor state and one method per user action.
- `src/laws.rs` — properties across these operations.
- `app/` — the egui window, Typst and PDFium calls, saving and printing.
