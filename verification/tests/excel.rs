use std::io::Cursor;

use calamine::{open_workbook_from_rs, Data, Reader, Xlsx};
use tablet_core::excel::{
    apply_patch, export_group_book, export_table_book, fresh_group_book, import_xlsx_into_group, sanitize_sheet_name,
    unique_sheet_name, ExcelError, GroupPatch, NodePatch, SheetGrid,
};
use tablet_core::tbl::serialize_table;
use tablet_core::model::{ConstEntry, Constant, EnumDef, EnumEntry, Export, FieldDef, Group, Table, TableSchema};

fn t(name: &str) -> Table {
    Table {
        name: name.to_string(),
        path: format!("{}.tbl", name),
        schema: TableSchema {
            fields: vec![
                FieldDef { name: "id".into(), desc: "编号".into(), tbl_type: "int".into(), export: Export::ClientServer },
                FieldDef { name: "name".into(), desc: "名字".into(), tbl_type: "str".into(), export: Export::ClientServer },
            ],
        },
        records: vec![vec!["1".into(), "alice".into()]],
        dirty: false,
        deleted: false,
        saved_text: String::new(),
    }
}

fn c(name: &str) -> Constant {
    Constant {
        name: name.into(),
        path: format!("{}.tbl", name),
        entries: vec![ConstEntry {
            name: "FOO".into(),
            tbl_type: "int".into(),
            value: "42".into(),
            export: Export::ClientServer,
            desc: "示例常量".into(),
        }],
        dirty: false,
        deleted: false,
        saved_text: String::new(),
    }
}

fn e(name: &str) -> EnumDef {
    EnumDef {
        name: name.into(),
        path: format!("{}.tbl", name),
        entries: vec![EnumEntry { id: "1".into(), name: "RED".into(), desc: "红".into() }],
        dirty: false,
        deleted: false,
        saved_text: String::new(),
    }
}

fn g(name: &str, table_names: &[&str]) -> Group {
    Group {
        name: name.into(),
        dir: name.into(),
        tables: table_names.iter().map(|n| t(n)).collect(),
        constants: vec![],
        enums: vec![],
        is_new: false,
    }
}

fn g_mixed() -> Group {
    Group {
        name: "hero".into(),
        dir: "hero".into(),
        tables: vec![t("t1")],
        constants: vec![c("c1")],
        enums: vec![e("e1")],
        is_new: false,
    }
}

/// Cell text as a reader of the workbook sees it: whole floats without
/// their `.0`.
fn cell_text(cell: &Data) -> String {
    match cell {
        Data::Empty => String::new(),
        Data::String(s) => s.clone(),
        Data::Float(f) => {
            if f.fract() == 0.0 && f.abs() < 1e15 {
                format!("{}", *f as i64)
            } else {
                f.to_string()
            }
        }
        Data::Int(i) => i.to_string(),
        Data::Bool(b) => b.to_string(),
        Data::DateTime(d) => d.to_string(),
        Data::DateTimeIso(s) => s.clone(),
        Data::DurationIso(s) => s.clone(),
        Data::Error(e) => format!("#ERR:{:?}", e),
    }
}

/// The sheets of a workbook, in order, as cell texts.
fn grids_of(bytes: &[u8]) -> Vec<SheetGrid> {
    let mut wb: Xlsx<_> = open_workbook_from_rs(Cursor::new(bytes.to_vec())).unwrap();
    let mut out = Vec::new();
    for name in wb.sheet_names() {
        let range = wb.worksheet_range(&name).unwrap();
        let rows: Vec<Vec<String>> = range.rows().map(|r| r.iter().map(cell_text).collect()).collect();
        out.push(SheetGrid { name, width: range.width(), rows });
    }
    out
}

#[test]
fn xlsx_magic_bytes() {
    let bytes = export_table_book(&t("T")).unwrap();
    assert_eq!(&bytes[..4], b"PK\x03\x04");
}

#[test]
fn sheet_name_sanitize() {
    assert_eq!(sanitize_sheet_name("a/b:c"), "a_b_c");
    assert_eq!(sanitize_sheet_name(""), "Sheet");
    let long = "x".repeat(50);
    assert_eq!(sanitize_sheet_name(&long).chars().count(), 31);
}

#[test]
fn group_book_full_default_ok() {
    let group = g("hero", &["t1", "t2", "t3"]);
    let bytes = export_group_book(&group, None).unwrap();
    assert_eq!(&bytes[..4], b"PK\x03\x04");
}

#[test]
fn group_book_include_subset_smaller_than_full() {
    let group = g("hero", &["t1", "t2", "t3"]);
    let full = export_group_book(&group, None).unwrap();
    let subset = export_group_book(&group, Some(&["t1", "t2"])).unwrap();
    assert!(subset.len() < full.len(), "subset bytes {} should be < full bytes {}", subset.len(), full.len());
}

#[test]
fn group_book_include_empty_slice_errs() {
    let group = g("hero", &["t1"]);
    let err = export_group_book(&group, Some(&[])).unwrap_err();
    let msg = err.message();
    assert!(msg.contains("不能为空"), "got: {}", msg);
}

#[test]
fn group_book_include_unknown_errs_with_name() {
    let group = g("hero", &["t1"]);
    let err = export_group_book(&group, Some(&["t1", "ghost"])).unwrap_err();
    let msg = err.message();
    assert!(msg.contains("ghost"), "错误信息应包含未匹配的名字 'ghost'，got: {}", msg);
    assert!(msg.contains("hero"), "错误信息应包含 group 名 'hero'，got: {}", msg);
}

#[test]
fn group_book_include_order_independent_of_argument_order() {
    let group = g("hero", &["alpha", "beta", "gamma"]);
    let a = export_group_book(&group, Some(&["alpha", "beta"])).unwrap();
    let b = export_group_book(&group, Some(&["beta", "alpha"])).unwrap();
    assert_eq!(a.len(), b.len(), "include 列表顺序变化不应影响输出，{} vs {}", a.len(), b.len());
}

#[test]
fn import_round_trip_table_only() {
    let group = g("hero", &["t1"]);
    let bytes = export_group_book(&group, None).unwrap();
    let grids = grids_of(&bytes);

    let patch = import_xlsx_into_group(&grids, &group).unwrap();
    assert_eq!(patch.patches.len(), 1);
    match &patch.patches[0] {
        NodePatch::Table { name, records } => {
            assert_eq!(name, "t1");
            assert_eq!(records, &group.tables[0].records);
        }
        _ => panic!("expected Table patch, got {:?}", patch.patches[0]),
    }
}

#[test]
fn import_round_trip_mixed_group() {
    let group = g_mixed();
    let bytes = export_group_book(&group, None).unwrap();
    let grids = grids_of(&bytes);

    let patch = import_xlsx_into_group(&grids, &group).unwrap();
    assert_eq!(patch.patches.len(), 3);
    match &patch.patches[0] {
        NodePatch::Table { name, records } => {
            assert_eq!(name, "t1");
            assert_eq!(records, &group.tables[0].records);
        }
        _ => panic!("[0] expected Table"),
    }
    match &patch.patches[1] {
        NodePatch::Constant { name, entries } => {
            assert_eq!(name, "c1");
            assert_eq!(entries.len(), 1);
            assert_eq!(entries[0].name, "FOO");
            assert_eq!(entries[0].tbl_type, "int");
            assert_eq!(entries[0].value, "42");
            assert_eq!(entries[0].export, Export::ClientServer);
            assert_eq!(entries[0].desc, "示例常量");
        }
        _ => panic!("[1] expected Constant"),
    }
    match &patch.patches[2] {
        NodePatch::Enum { name, entries } => {
            assert_eq!(name, "e1");
            assert_eq!(entries.len(), 1);
            assert_eq!(entries[0].id, "1");
            assert_eq!(entries[0].name, "RED");
            assert_eq!(entries[0].desc, "红");
        }
        _ => panic!("[2] expected Enum"),
    }
}

#[test]
fn import_unknown_sheet_errs() {
    let group_a = g("hero", &["t1"]);
    let bytes = export_group_book(&group_a, None).unwrap();
    let grids = grids_of(&bytes);

    let group_b = g("hero", &["other"]);
    let err = import_xlsx_into_group(&grids, &group_b).unwrap_err();
    let msg = err.message();
    assert!(msg.contains("t1"), "应提及未匹配的 sheet 't1'，got: {}", msg);
}

#[test]
fn import_missing_sheet_errs() {
    let group = g("hero", &["t1", "t2"]);
    let bytes = export_group_book(&group, Some(&["t1"])).unwrap();
    let grids = grids_of(&bytes);

    let err = import_xlsx_into_group(&grids, &group).unwrap_err();
    let msg = err.message();
    assert!(msg.contains("t2"), "应提及缺失的 sheet 't2'，got: {}", msg);
}

#[test]
fn import_header_tampering_errs() {
    let group_a = g("hero", &["t1"]);
    let bytes = export_group_book(&group_a, None).unwrap();
    let grids = grids_of(&bytes);

    let mut group_b = g("hero", &["t1"]);
    group_b.tables[0].schema.fields[1].name = "alias".into();

    let err = import_xlsx_into_group(&grids, &group_b).unwrap_err();
    let msg = err.message();
    assert!(msg.contains("name") || msg.contains("alias"), "应提及表头不一致，got: {}", msg);
}

#[test]
fn unique_sheet_names_get_a_suffix() {
    let mut used: Vec<String> = Vec::new();
    assert_eq!(unique_sheet_name("a/b", &mut used), "a_b");
    assert_eq!(unique_sheet_name("a:b", &mut used), "a_b_2");
    assert_eq!(unique_sheet_name("a_b", &mut used), "a_b_3");
    assert_eq!(used.len(), 3);
}

#[test]
fn import_of_grids_without_any_sheet_reports_every_node_missing() {
    let group = g("hero", &["t1", "t2"]);
    let err = import_xlsx_into_group(&[], &group).unwrap_err();
    match err {
        ExcelError::MissingSheets { group, names } => {
            assert_eq!(group, "hero");
            assert_eq!(names, vec!["t1".to_string(), "t2".to_string()]);
        }
        other => panic!("expected MissingSheets, got {}", other.message()),
    }
}

#[test]
fn import_blank_rows_are_skipped_and_rows_padded() {
    let group = g("hero", &["t1"]);
    let grids = vec![SheetGrid {
        name: "t1".into(),
        width: 2,
        rows: vec![
            vec!["编号".into(), "名字".into()],
            vec!["前后端".into(), "前后端".into()],
            vec!["int".into(), "str".into()],
            vec!["id".into(), "name".into()],
            vec!["7".into(), "bob".into()],
            vec!["".into(), "".into()],
            vec!["8".into()],
        ],
    }];
    let patch = import_xlsx_into_group(&grids, &group).unwrap();
    match &patch.patches[0] {
        NodePatch::Table { records, .. } => {
            assert_eq!(records, &vec![vec!["7".to_string(), "bob".to_string()], vec!["8".to_string(), String::new()]]);
        }
        _ => panic!("expected Table patch"),
    }
}

#[test]
fn applying_a_read_back_replaces_content_and_marks_changes() {
    let mut group = g_mixed();
    group.tables[0].saved_text = serialize_table(&group.tables[0]);
    let patch = GroupPatch {
        patches: vec![
            NodePatch::Table { name: "t1".into(), records: vec![vec!["1".into(), "alice".into()]] },
            NodePatch::Enum {
                name: "e1".into(),
                entries: vec![EnumEntry { id: "2".into(), name: "BLUE".into(), desc: "蓝".into() }],
            },
            NodePatch::Constant { name: "nope".into(), entries: vec![] },
        ],
    };
    apply_patch(&mut group, &patch);
    assert!(!group.tables[0].dirty, "same records as saved: clean");
    assert_eq!(group.enums[0].entries.len(), 1);
    assert_eq!(group.enums[0].entries[0].name, "BLUE");
    assert!(group.enums[0].dirty);
    assert_eq!(group.constants[0].entries[0].name, "FOO");
}

#[test]
fn fresh_sync_book_has_names_then_records() {
    let mut group = g("hero", &["t1", "t2"]);
    group.tables[1].deleted = true;
    let bytes = fresh_group_book(&group).unwrap();
    let grids = grids_of(&bytes);
    assert_eq!(grids.len(), 1);
    assert_eq!(grids[0].name, "t1");
    assert_eq!(grids[0].rows, vec![vec!["id".to_string(), "name".to_string()], vec!["1".to_string(), "alice".to_string()]]);
}

#[test]
fn excel_error_messages_name_the_place() {
    let e = ExcelError::UnknownNodes { group: "hero".into(), names: vec!["a".into(), "b".into()] };
    assert_eq!(e.message(), "excel: 节点列表包含不属于分组 'hero' 的节点: a, b");
    let e = ExcelError::TooFewRows { sheet: "S".into(), rows: 2, needed: 4 };
    assert_eq!(e.message(), "sheet 'S' 行数 2 < 4，缺表头");
    let e = ExcelError::ColumnCount { sheet: "S".into(), found: 12, expected: 3 };
    assert_eq!(e.message(), "sheet 'S' 列数 12 ≠ 3");
    let e = ExcelError::HeaderMismatch {
        sheet: "S".into(),
        row: 0,
        col: 10,
        found: "x".into(),
        expected: "y".into(),
    };
    assert_eq!(e.message(), "sheet 'S' 表头第 0 行第 10 列 'x' ≠ 'y'");
    assert_eq!(ExcelError::Xlsx("bad".into()).message(), "xlsx: bad");
    assert_eq!(ExcelError::EmptyOnly.message(), "excel: 节点列表不能为空 Some(&[])，要表示\"全部\"请用 None");
}
