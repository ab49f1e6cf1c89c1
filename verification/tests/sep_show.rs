use tablet_core::sep_show::{build_separators, sep_show_entries, SepItemError, SepSource};
use tablet_core::types::SeparatorsSection;

#[test]
fn sep_show_defaults_list_every_key_in_order() {
    let es = sep_show_entries(true, None, None);
    assert_eq!(es.len(), 25);
    assert_eq!(es[0].key, "Tuple2");
    assert_eq!(es[0].value, ",");
    assert_eq!(es[3].key, "List");
    assert_eq!(es[3].value, ";");
    assert!(es.iter().all(|e| e.source == SepSource::Default));
    assert_eq!(es[0].source.label(), "默认");
}

#[test]
fn sep_show_schema_wins_over_config() {
    let mut cfg = SeparatorsSection::default();
    cfg.list = "|".into();
    cfg.tuple2 = "/".into();
    let mut sch = SeparatorsSection::default();
    sch.list = "#".into();
    let es = sep_show_entries(false, Some(&cfg), Some(&sch));
    assert_eq!((es[3].value.as_str(), es[3].source), ("#", SepSource::Schema));
    assert_eq!((es[0].value.as_str(), es[0].source), ("/", SepSource::Config));
    assert_eq!((es[1].value.as_str(), es[1].source), (",", SepSource::Default));
    let es = sep_show_entries(true, Some(&cfg), Some(&sch));
    assert_eq!((es[3].value.as_str(), es[3].source), (";", SepSource::Default));
}

#[test]
fn separators_from_items() {
    let s = build_separators(SeparatorsSection::default(), &[" List = | ".to_string(), "Map.kv==".to_string()]).unwrap();
    assert_eq!(s.list, "|");
    assert_eq!(s.map.kv, "=");
    assert_eq!(s.tuple2, ",");
}

#[test]
fn separators_from_bad_items() {
    match build_separators(SeparatorsSection::default(), &["List=|".to_string(), "nonsense".to_string()]) {
        Err(SepItemError::BadFormat(s)) => assert_eq!(s, "nonsense"),
        _ => panic!("expected a format error"),
    }
    match build_separators(SeparatorsSection::default(), &["Nope = x".to_string()]) {
        Err(e) => assert_eq!(e.message(), "未知的分隔符 key: Nope"),
        Ok(_) => panic!("expected an unknown key"),
    }
}
