use tablet_core::model::{ConstEntry, Constant, EnumDef, EnumEntry, Export, FieldDef, Table, TableSchema};
use tablet_core::tbl::{parse_tbl_text, serialize_constant, serialize_enum, serialize_table, TblFile};

fn table() -> Table {
    Table {
        name: "hero".into(),
        path: "hero/hero.tbl".into(),
        schema: TableSchema {
            fields: vec![
                FieldDef { name: "id".into(), desc: "编号".into(), tbl_type: "int".into(), export: Export::ClientServer },
                FieldDef { name: "bio".into(), desc: "简介".into(), tbl_type: "txt".into(), export: Export::ClientOnly },
            ],
        },
        records: vec![vec!["1".into(), "a|b\nc".into()], vec!["2".into(), "".into()]],
        dirty: true,
        deleted: false,
        saved_text: String::new(),
    }
}

#[test]
fn table_round_trip() {
    let t = table();
    let text = serialize_table(&t);
    match parse_tbl_text(&text, "hero", "hero/hero.tbl") {
        Ok(TblFile::Table(back)) => {
            assert_eq!(back.records, t.records);
            assert_eq!(back.schema.fields.len(), 2);
            assert_eq!(back.schema.fields[1].name, "bio");
            assert_eq!(back.schema.fields[1].export, Export::ClientOnly);
            assert!(!back.dirty);
            assert_eq!(back.saved_text, text);
        }
        Ok(_) => panic!("expected a table"),
        Err(e) => panic!("parse failed: {}", e.message()),
    }
}

#[test]
fn constant_round_trip() {
    let c = Constant {
        name: "g".into(),
        path: "g.tbl".into(),
        entries: vec![ConstEntry {
            name: "MAX".into(),
            tbl_type: "int".into(),
            value: "100".into(),
            export: Export::ServerOnly,
            desc: "上限".into(),
        }],
        dirty: false,
        deleted: false,
        saved_text: String::new(),
    };
    let text = serialize_constant(&c);
    match parse_tbl_text(&text, "g", "g.tbl") {
        Ok(TblFile::Constant(back)) => {
            assert_eq!(back.entries.len(), 1);
            assert_eq!(back.entries[0].value, "100");
            assert_eq!(back.entries[0].export, Export::ServerOnly);
            assert_eq!(back.entries[0].desc, "上限");
        }
        _ => panic!("expected a constant"),
    }
}

#[test]
fn enum_round_trip() {
    let e = EnumDef {
        name: "HeroType".into(),
        path: "t.tbl".into(),
        entries: vec![
            EnumEntry { id: "1".into(), name: "WARRIOR".into(), desc: "战士".into() },
            EnumEntry { id: "2".into(), name: "MAGE".into(), desc: "".into() },
        ],
        dirty: false,
        deleted: false,
        saved_text: String::new(),
    };
    let text = serialize_enum(&e);
    match parse_tbl_text(&text, "HeroType", "t.tbl") {
        Ok(TblFile::Enum(back)) => {
            assert_eq!(back.entries.len(), 2);
            assert_eq!(back.entries[1].name, "MAGE");
            assert_eq!(back.entries[0].desc, "战士");
        }
        _ => panic!("expected an enum"),
    }
}
