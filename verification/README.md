# tablet-core

A verified library for tablet, a tool that keeps game configuration tables
as text files and turns them into code and data.

- `src/` is the library, written in Verus. Its contracts state what each
  function returns; the laws (`law_*` proof functions) state what holds
  across functions: a `.tbl` file or a `.tblschema` file written and read
  again gives back what was written, and a sheet laid out by the workbook
  writer reads back as the table it came from. The workbooks the library
  builds hold exactly those sheets; the bytes the spreadsheet writer saves
  them as are not modelled.
- `tests/` runs the library on concrete values.
- `app/` is the `tablet-cli` command line: files, workbooks and printing.

Modules: `text` (character-level helpers), `tbl_str` (the cell codec),
`types` (the type grammar and separators), `model`, `tbl` and `tbl_laws`
(the `.tbl` format), `tblschema` and `schema_laws` (the `.tblschema`
format), `schema_project`, `overrides`, `export_settings`, `export`
(C++, C#, TypeScript and XML generators), `excel` and `excel_sync` (workbook
layout and read-back), `sync_book` (the sheets of a hand-edited workbook
and syncing a group into it), `file_text` (line endings and encodings of
exported files), `grid_tsv` (copying, clearing and naming a rectangle of
cells), `tree_rows` (the filtered project tree), `config_fix`, `sep_show`,
`cli_util`.
