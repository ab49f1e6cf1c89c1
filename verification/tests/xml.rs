use tablet_core::export::xml::{export_constant_xml, export_table_xml, sep_attrs, xml_escape};
use tablet_core::export::EmptyStrategy;
use tablet_core::model::{ConstEntry, Constant, Export, FieldDef, Table, TableSchema};
use tablet_core::types::{SepKey, SeparatorsSection};

fn table() -> Table {
    Table {
        name: "hero".into(),
        path: "hero.tbl".into(),
        schema: TableSchema {
            fields: vec![
                FieldDef { name: "id".into(), desc: "编号".into(), tbl_type: "int".into(), export: Export::ClientServer },
                FieldDef { name: "hero_name".into(), desc: "名字".into(), tbl_type: "str".into(), export: Export::ServerOnly },
                FieldDef { name: "icon".into(), desc: "图标".into(), tbl_type: "str".into(), export: Export::ClientOnly },
            ],
        },
        records: vec![vec!["1".into(), "a<b".into(), "x".into()], vec!["2".into(), "".into(), "y".into()]],
        dirty: false,
        deleted: false,
        saved_text: String::new(),
    }
}

#[test]
fn xml_escape_all_five() {
    assert_eq!(xml_escape("a&b<c>d\"e'f"), "a&amp;b&lt;c&gt;d&quot;e&apos;f");
    assert_eq!(xml_escape("plain"), "plain");
}

#[test]
fn xml_table_empty_strategy_keeps_empty_elements() {
    let sep = SeparatorsSection::default();
    let s = export_table_xml(&table(), &EmptyStrategy::Empty, &sep, &[]);
    assert_eq!(
        s,
        "<?xml version=\"1.0\" encoding=\"UTF-8\"?>\n<list>\n  <item>\n    <id>1</id>\n    <heroName>a&lt;b</heroName>\n  </item>\n  <item>\n    <id>2</id>\n    <heroName></heroName>\n  </item>\n</list>\n"
    );
}

#[test]
fn xml_table_omit_strategy_drops_empty_elements() {
    let sep = SeparatorsSection::default();
    let s = export_table_xml(&table(), &EmptyStrategy::Omit, &sep, &[]);
    assert!(!s.contains("<heroName></heroName>"));
    assert!(s.contains("  <item>\n    <id>2</id>\n  </item>\n"));
}

#[test]
fn xml_sep_attrs_only_for_used_keys() {
    let sep = SeparatorsSection::default();
    assert_eq!(sep_attrs(&sep, &[]), "");
    let s = sep_attrs(&sep, &[SepKey::List]);
    assert!(s.starts_with(" sep_"), "got {}", s);
    assert_eq!(s.matches("sep_").count(), 1);
}

#[test]
fn xml_constant_skips_client_only_and_unnamed() {
    let c = Constant {
        name: "g".into(),
        path: "g.tbl".into(),
        entries: vec![
            ConstEntry { name: "max_level".into(), tbl_type: "int".into(), value: "100".into(), export: Export::ClientServer, desc: "".into() },
            ConstEntry { name: "ui_only".into(), tbl_type: "int".into(), value: "1".into(), export: Export::ClientOnly, desc: "".into() },
            ConstEntry { name: "".into(), tbl_type: "int".into(), value: "1".into(), export: Export::ServerOnly, desc: "".into() },
        ],
        dirty: false,
        deleted: false,
        saved_text: String::new(),
    };
    let s = export_constant_xml(&c, &EmptyStrategy::Empty, &SeparatorsSection::default(), &[]);
    assert_eq!(s, "<?xml version=\"1.0\" encoding=\"UTF-8\"?>\n<const>\n  <maxLevel>100</maxLevel>\n</const>\n");
}
