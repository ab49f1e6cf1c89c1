use tablet_core::model::{join_path, Export, FieldDef, TableSchema};

#[test]
fn paths_join_with_slash() {
    assert_eq!(join_path("proj", "config"), "proj/config");
    assert_eq!(join_path("proj/", "config"), "proj/config");
    assert_eq!(join_path("", "config"), "config");
    assert_eq!(join_path("proj", "/abs/out"), "/abs/out");
    assert_eq!(join_path("proj", ""), "proj/");
}

#[test]
fn export_sides_read_from_labels_and_codes() {
    assert_eq!(Export::from_str(" 客户端 "), Export::ClientOnly);
    assert_eq!(Export::from_str("s"), Export::ServerOnly);
    assert_eq!(Export::from_str(""), Export::ClientServer);
    assert_eq!(Export::from_str("-"), Export::NoExport);
    assert_eq!(Export::from_str("nope"), Export::Unselected);
    assert_eq!(Export::ServerOnly.display(), "服务器");
}

#[test]
fn id_column_is_the_first_named_id() {
    let f = |n: &str| FieldDef { name: n.into(), desc: String::new(), tbl_type: "int".into(), export: Export::ClientServer };
    assert_eq!(TableSchema { fields: vec![f("name"), f("id"), f("id")] }.index_col(), Some(1));
    assert_eq!(TableSchema { fields: vec![f("name")] }.index_col(), None);
}
