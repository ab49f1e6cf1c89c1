use tablet_core::excel::{export_table_book, fresh_group_book, ExcelError};
use tablet_core::excel_sync::SyncMode;
use tablet_core::model::{Export, FieldDef, Group, Table, TableSchema};
use tablet_core::excel_sync::XlsxSheet;
use tablet_core::sync_book::{book_xlsx_sheets, sync_parsed_workbook};

fn table(name: &str, records: Vec<Vec<&str>>) -> Table {
    Table {
        name: name.to_string(),
        path: format!("{}.tbl", name),
        schema: TableSchema {
            fields: vec![
                FieldDef { name: "id".into(), desc: "编号".into(), tbl_type: "int".into(), export: Export::ClientServer },
                FieldDef { name: "name".into(), desc: "名字".into(), tbl_type: "str".into(), export: Export::ClientServer },
            ],
        },
        records: records.into_iter().map(|r| r.into_iter().map(String::from).collect()).collect(),
        dirty: false,
        deleted: false,
        saved_text: String::new(),
    }
}

fn book_of(bytes: &[u8]) -> umya_spreadsheet::Workbook {
    umya_spreadsheet::reader::xlsx::read_reader(std::io::Cursor::new(bytes), true).unwrap()
}

fn read_xlsx_sheets(bytes: &[u8]) -> Vec<XlsxSheet> {
    book_xlsx_sheets(&book_of(bytes))
}

fn bytes_of(book: &umya_spreadsheet::Workbook) -> Vec<u8> {
    let mut out = Vec::new();
    umya_spreadsheet::writer::xlsx::write_writer(book, &mut out).unwrap();
    out
}

fn group(tables: Vec<Table>) -> Group {
    Group { name: "hero".into(), dir: "hero".into(), tables, constants: vec![], enums: vec![], is_new: false }
}

#[test]
fn fresh_book_reads_back_as_sheets() {
    let g = group(vec![table("t1", vec![vec!["1", "alice"], vec!["2", "bob"]])]);
    let bytes = fresh_group_book(&g).unwrap();
    let sheets = read_xlsx_sheets(&bytes);
    assert_eq!(sheets.len(), 1);
    assert_eq!(sheets[0].name, "t1");
    assert_eq!(sheets[0].headers, vec!["id".to_string(), "name".to_string()]);
    assert_eq!(sheets[0].rows, vec![vec!["1".to_string(), "alice".to_string()], vec!["2".to_string(), "bob".to_string()]]);
}

#[test]
fn sync_into_existing_book_updates_records_and_adds_sheets() {
    let old = group(vec![table("t1", vec![vec!["1", "alice"]])]);
    let mut book = book_of(&fresh_group_book(&old).unwrap());
    let new = group(vec![table("t1", vec![vec!["1", "alicia"], vec!["2", "bob"]]), table("t2", vec![vec!["7", "x"]])]);
    assert!(sync_parsed_workbook(&mut book, &new, SyncMode::WithColumns));
    let sheets = read_xlsx_sheets(&bytes_of(&book));
    assert_eq!(sheets.len(), 2);
    assert_eq!(sheets[0].name, "t1");
    assert_eq!(sheets[0].rows, vec![vec!["1".to_string(), "alicia".to_string()], vec!["2".to_string(), "bob".to_string()]]);
    assert_eq!(sheets[1].name, "t2");
    assert_eq!(sheets[1].headers, vec!["id".to_string(), "name".to_string()]);
    assert_eq!(sheets[1].rows, vec![vec!["7".to_string(), "x".to_string()]]);
}

#[test]
fn a_lazily_read_book_is_not_synced() {
    let old = group(vec![table("t1", vec![vec!["1", "alice"]])]);
    let bytes = fresh_group_book(&old).unwrap();
    let mut book = umya_spreadsheet::reader::xlsx::read_reader(std::io::Cursor::new(&bytes[..]), false).unwrap();
    assert!(!sync_parsed_workbook(&mut book, &old, SyncMode::DataOnly));
}

#[test]
fn writer_refuses_a_cell_over_the_length_limit() {
    let long = "x".repeat(32768);
    let t = table("t1", vec![vec!["1", long.as_str()]]);
    match export_table_book(&t) {
        Err(ExcelError::Xlsx(_)) => {},
        other => panic!("expected a writer error, got {:?}", other.map(|b| b.len())),
    }
    let fits = "x".repeat(32767);
    assert!(export_table_book(&table("t1", vec![vec!["1", fits.as_str()]])).is_ok());
}

#[test]
fn writer_refuses_a_sheet_name_with_an_apostrophe_at_an_end() {
    match export_table_book(&table("'t", vec![])) {
        Err(ExcelError::Xlsx(_)) => {},
        other => panic!("expected a writer error, got {:?}", other.map(|b| b.len())),
    }
}
