use tablet_core::excel_sync::{
    classify_header, compute_column_match, diff_rows, read_group_from_xlsx, sync_sheet_writes, xlsx_sheet_of, DiffCount,
    HeaderMatch, SyncMode,
};
use tablet_core::model::{Group, Table, TableSchema};
use tablet_core::model::{Export, FieldDef};

fn fields(names: &[&str]) -> Vec<FieldDef> {
    names
        .iter()
        .map(|n| FieldDef { name: n.to_string(), desc: String::new(), tbl_type: "int".into(), export: Export::ClientServer })
        .collect()
}

fn heads(names: &[&str]) -> Vec<String> {
    names.iter().map(|n| n.to_string()).collect()
}

#[test]
fn column_match_prefix_and_tail() {
    let cm = compute_column_match(&fields(&["id", "name", "hp", "mp"]), &heads(&["id", "name", "mp", "extra", "x"]));
    assert_eq!(cm.matched_prefix, 2);
    assert_eq!(cm.tablet_only, 2);
    assert_eq!(cm.xlsx_only, 3);
    assert_eq!(cm.col_map, vec![Some(1), Some(2), None, Some(3)]);
}

#[test]
fn header_classes() {
    let f = fields(&["id", "name"]);
    assert_eq!(classify_header(&heads(&[]), &f), HeaderMatch::Invalid);
    assert_eq!(classify_header(&heads(&["name", "id"]), &f), HeaderMatch::Invalid);
    assert_eq!(classify_header(&heads(&["id", "name"]), &f), HeaderMatch::Identical);
    assert_eq!(classify_header(&heads(&["id", "other"]), &f), HeaderMatch::TailDiff);
    assert_eq!(classify_header(&heads(&["id", "name"]), &fields(&["key", "name"])), HeaderMatch::Mismatch);
}

#[test]
fn diff_counts_added_removed_modified() {
    let a = vec![vec!["1".to_string()], vec!["2".to_string()], vec!["3".to_string()]];
    let b = vec![vec!["1".to_string()], vec!["9".to_string()]];
    assert_eq!(diff_rows(3, 2, &a, &b), DiffCount { added: 1, removed: 0, modified: 1 });
    assert_eq!(diff_rows(2, 3, &b, &a), DiffCount { added: 0, removed: 1, modified: 1 });
    assert_eq!(diff_rows(2, 2, &a, &a), DiffCount { added: 0, removed: 0, modified: 0 });
}

fn rows(xs: &[&[&str]]) -> Vec<Vec<String>> {
    xs.iter().map(|r| r.iter().map(|c| c.to_string()).collect()).collect()
}

#[test]
fn sheet_from_cells_drops_empty_rows_and_trailing_cells() {
    let s = xlsx_sheet_of("hero".into(), &rows(&[&["id", "name", ""], &["1", "a", ""], &["", "", ""], &["2", "", ""]]));
    assert_eq!(s.name, "hero");
    assert_eq!(s.headers, heads(&["id", "name", ""]));
    assert_eq!(s.rows, rows(&[&["1", "a"], &["2"]]));
    let empty = xlsx_sheet_of("x".into(), &Vec::new());
    assert!(empty.headers.is_empty() && empty.rows.is_empty());
}

#[test]
fn sync_writes_by_mode() {
    let f = fields(&["id", "name", "hp"]);
    let recs = rows(&[&["1", "a", "10"]]);
    let w = sync_sheet_writes(&f, &heads(&["id", "name", "old"]), &recs, SyncMode::DataOnly);
    let got: Vec<(u32, u32, String)> = w.iter().map(|c| (c.col, c.row, c.value.clone())).collect();
    assert_eq!(
        got,
        vec![(1, 1, "id".into()), (2, 1, "name".into()), (1, 2, "1".into()), (2, 2, "a".into())]
    );
    let w = sync_sheet_writes(&f, &heads(&["id", "name", "old"]), &recs, SyncMode::WithColumns);
    assert_eq!(w.len(), 6);
    assert_eq!((w[2].col, w[2].row, w[2].value.as_str()), (3, 1, "hp"));
    assert_eq!((w[5].col, w[5].row, w[5].value.as_str()), (3, 2, "10"));
}

#[test]
fn read_back_cuts_rows_to_the_common_columns() {
    let group = Group {
        name: "g".into(),
        dir: "g".into(),
        tables: vec![Table {
            name: "hero".into(),
            path: "hero.tbl".into(),
            schema: TableSchema { fields: fields(&["id", "name", "hp"]) },
            records: vec![],
            dirty: false,
            deleted: false,
            saved_text: String::new(),
        }],
        constants: vec![],
        enums: vec![],
        is_new: false,
    };
    let sheets = vec![
        xlsx_sheet_of("hero".into(), &rows(&[&["id", "name", "mp"], &["1", "a", "5"]])),
        xlsx_sheet_of("other".into(), &rows(&[&["id"], &["9"]])),
        xlsx_sheet_of("hero".into(), &rows(&[&["key"], &["7"]])),
    ];
    let p = read_group_from_xlsx(&sheets, &group, false);
    assert_eq!(p.tables.len(), 1);
    assert_eq!(p.tables[0].0, "hero");
    assert_eq!(p.tables[0].1, rows(&[&["1", "a", ""]]));
    let forced = read_group_from_xlsx(&sheets, &group, true);
    assert_eq!(forced.tables.len(), 2);
    assert_eq!(forced.tables[1].1, rows(&[&["", "", ""]]));
}
