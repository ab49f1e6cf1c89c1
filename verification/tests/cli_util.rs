use tablet_core::cli_util::{dir_stat, escape_json, run_validate_filtered, schema_show, tbl_stat, validate_exit_code, ValidateFilter, ValidationSummary};
use tablet_core::tbl::TblFile;
use tablet_core::model::{ConstEntry, Constant, EnumDef, Export, FieldDef, Group, Table, TableSchema};

#[test]
fn json_escapes() {
    assert_eq!(escape_json("a\"b\\c\nd\re\tf"), "a\\\"b\\\\c\\nd\\re\\tf");
    assert_eq!(escape_json("中文"), "中文");
}

fn errs() -> Vec<(String, String, String, usize, usize)> {
    vec![
        ("bad int".to_string(), "hero".to_string(), "HeroBase".to_string(), 1, 2),
        ("dup id".to_string(), "hero".to_string(), "HeroSkill".to_string(), 3, 0),
        ("bad ref".to_string(), "item".to_string(), "Item".to_string(), 1, 2),
    ]
}

#[test]
fn validate_filter_keeps_matching_errors_in_order() {
    let all = ValidateFilter { group: None, node: None, col: None, row: None };
    let s = run_validate_filtered(&errs(), &all);
    assert_eq!(s.error_count(), 3);
    assert!(!s.is_pass());

    let by_group = ValidateFilter { group: Some("hero".into()), node: None, col: None, row: None };
    let s = run_validate_filtered(&errs(), &by_group);
    assert_eq!(s.errors.len(), 2);
    assert_eq!(s.errors[1].2, "HeroSkill");

    let by_cell = ValidateFilter { group: None, node: None, col: Some(2), row: Some(1) };
    let s = run_validate_filtered(&errs(), &by_cell);
    assert_eq!(s.errors.iter().map(|e| e.1.as_str()).collect::<Vec<_>>(), vec!["hero", "item"]);

    let none = ValidateFilter { group: Some("nope".into()), node: None, col: None, row: None };
    let s = run_validate_filtered(&errs(), &none);
    assert!(s.is_pass());
    assert_eq!(s.error_count(), 0);
}

#[test]
fn schema_listing_counts_each_node() {
    let g = Group {
        name: "hero".into(),
        dir: "hero".into(),
        tables: vec![Table {
            name: "HeroBase".into(),
            path: "HeroBase.tbl".into(),
            schema: TableSchema {
                fields: vec![
                    FieldDef { name: "id".into(), desc: String::new(), tbl_type: "int".into(), export: Export::ClientServer },
                    FieldDef { name: "name".into(), desc: String::new(), tbl_type: "str".into(), export: Export::ClientServer },
                ],
            },
            records: vec![vec!["1".into(), "a".into()], vec!["2".into(), "b".into()], vec!["3".into(), "c".into()]],
            dirty: false,
            deleted: false,
            saved_text: String::new(),
        }],
        constants: vec![Constant {
            name: "G".into(),
            path: "G.tbl".into(),
            entries: vec![ConstEntry { name: "A".into(), tbl_type: "int".into(), value: "1".into(), export: Export::ClientServer, desc: String::new() }],
            dirty: false,
            deleted: false,
            saved_text: String::new(),
        }],
        enums: vec![EnumDef { name: "E".into(), path: "E.tbl".into(), entries: vec![], dirty: false, deleted: false, saved_text: String::new() }],
        is_new: false,
    };
    let es = schema_show(&[g]);
    assert_eq!(es.len(), 1);
    assert_eq!(es[0].group, "hero");
    let nodes: Vec<(String, &str, String)> = es[0].nodes.iter().map(|n| (n.name.clone(), n.kind, n.detail.clone())).collect();
    assert_eq!(
        nodes,
        vec![
            ("HeroBase".to_string(), "table", "2 fields, 3 rows".to_string()),
            ("G".to_string(), "constant", "1 entries".to_string()),
            ("E".to_string(), "enum", "0 entries".to_string()),
        ]
    );
}

#[test]
fn file_and_directory_counts() {
    let t = Table {
        name: "T".into(),
        path: "T.tbl".into(),
        schema: TableSchema {
            fields: vec![
                FieldDef { name: "id".into(), desc: String::new(), tbl_type: "int".into(), export: Export::ClientServer },
                FieldDef { name: "n".into(), desc: String::new(), tbl_type: "str".into(), export: Export::ClientServer },
            ],
        },
        records: vec![vec!["1".into(), "".into()], vec!["".into(), "".into()]],
        dirty: false,
        deleted: false,
        saved_text: String::new(),
    };
    let c = Constant { name: "C".into(), path: "C.tbl".into(), entries: vec![], dirty: false, deleted: false, saved_text: String::new() };
    let files = vec![TblFile::Table(t), TblFile::Constant(c)];
    let st = tbl_stat(&files[0]);
    assert_eq!((st.kind, st.fields, st.rows, st.empty_cells), ("table", 2, 2, 3));
    let st = tbl_stat(&files[1]);
    assert_eq!((st.kind, st.rows), ("constant", 0));
    let d = dir_stat(&files);
    assert_eq!((d.files, d.tables, d.constants, d.enums, d.rows), (2, 1, 1, 0, 2));
}

#[test]
fn validate_exits_zero_only_when_it_passes() {
    let pass = ValidationSummary { errors: vec![] };
    assert!(pass.is_pass());
    assert_eq!(validate_exit_code(&pass), 0);
    let fail = ValidationSummary { errors: vec![("p".into(), "g".into(), "t".into(), 1, 2)] };
    assert!(!fail.is_pass());
    assert_eq!(fail.error_count(), 1);
    assert_eq!(validate_exit_code(&fail), 1);
}
