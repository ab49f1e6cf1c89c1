//! Core library of the tablet configuration tool: the `.tbl` cell codec and
//! file format, the `.tblschema` format, the type grammar, and the code
//! generators that turn tables into source files.

pub mod text;
pub mod tbl_str;
pub mod types;
pub mod enums;
pub mod model;
pub mod tblschema;
pub mod tbl;
pub mod schema_project;
pub mod tbl_laws;
pub mod schema_laws;
pub mod overrides;
pub mod export_settings;
pub mod export;
pub mod excel_sync;
pub mod excel;
pub mod sync_book;
pub mod file_text;
pub mod grid_tsv;
pub mod tree_rows;
pub mod config_fix;
pub mod sep_show;
pub mod cli_util;
