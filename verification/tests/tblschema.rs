use tablet_core::tblschema::{
    fill_metadata_defaults, is_valid_metadata_id, parse_tblschema, serialize_tblschema, SchemaField,
    SchemaMetadata, SchemaMode, SchemaSection, TblSchema,
};

#[test]
fn parse_tblschema_with_sep_lines() {
    // # @sep 行覆写默认；未列出的字段保持默认；未知 key 忽略；列出位置在第一个 [section] 之前。
    let src = r#"#!tblschema v1
# @meta id: sep-test
# @sep Map.entry = ,
# @sep List = |
# @sep Map_Tuple3.kv = >
# @sep Unknown.key = ?

[g/T] table
id | int | cs | x
"#;
    let s = parse_tblschema(src).expect("parse");
    assert_eq!(s.separators.map.entry, ",");
    assert_eq!(s.separators.list, "|");
    assert_eq!(s.separators.map_tuple3.kv, ">");
    // 未覆写字段 = 默认
    assert_eq!(s.separators.set, ";");
    assert_eq!(s.separators.tuple2, ",");
    assert_eq!(s.separators.map.kv, ":");
}

#[test]
fn serialize_tblschema_omits_default_sep() {
    // 全默认 separators → serialize 不应包含任何 # @sep 行
    let mut schema = TblSchema::default();
    schema.meta.id = "no-sep".to_string();
    schema.sections.push(SchemaSection {
        group: "g".to_string(),
        name: "T".to_string(),
        mode: SchemaMode::Table,
        fields: vec![SchemaField {
            name: "id".to_string(), tbl_type: "int".to_string(),
            export: "cs".to_string(), desc: "x".to_string(),
        }],
        preset: vec![],
    });
    let out = serialize_tblschema(&schema);
    assert!(!out.contains("# @sep"), "默认值不应输出 sep 行: {}", out);
}

#[test]
fn serialize_tblschema_writes_modified_sep_round_trip() {
    // 改 Map.entry → 写盘 → 重新 parse → 仍是逗号
    let mut schema = TblSchema::default();
    schema.meta.id = "rt".to_string();
    schema.separators.map.entry = ",".to_string();
    schema.separators.tuple3 = "/".to_string();
    schema.sections.push(SchemaSection {
        group: "g".to_string(),
        name: "T".to_string(),
        mode: SchemaMode::Table,
        fields: vec![SchemaField {
            name: "id".to_string(), tbl_type: "int".to_string(),
            export: "cs".to_string(), desc: "x".to_string(),
        }],
        preset: vec![],
    });
    let out = serialize_tblschema(&schema);
    assert!(out.contains("# @sep Map.entry = ,"), "应写出 Map.entry: {}", out);
    assert!(out.contains("# @sep Tuple3 = /"), "应写出 Tuple3: {}", out);
    // List 是默认值 → 不应该出现
    assert!(!out.contains("# @sep List ="));

    let parsed = parse_tblschema(&out).expect("re-parse");
    assert_eq!(parsed.separators.map.entry, ",");
    assert_eq!(parsed.separators.tuple3, "/");
    assert_eq!(parsed.separators.list, ";"); // 仍是默认
}

#[test]
fn parses_meta_lines() {
    let src = r#"#!tblschema v1
# @meta id: full
# @meta name: 完整测试模板
# @meta category: test
# @meta version: 1.0.0

[hero/HeroBase] table
id   | int | cs | 英雄ID
name | str | cs | 名称
"#;
    let s = parse_tblschema(src).expect("parse");
    assert_eq!(s.meta.id, "full");
    assert_eq!(s.meta.name, "完整测试模板");
    assert_eq!(s.meta.category, "test");
    assert_eq!(s.meta.version, "1.0.0");
    assert_eq!(s.sections.len(), 1);
}

#[test]
fn meta_lines_only_before_first_section() {
    let src = r#"#!tblschema v1
# @meta id: a

[g/N] table
id | int | cs | x
# @meta name: should-be-ignored
y  | str | cs | y
"#;
    let s = parse_tblschema(src).expect("parse");
    assert_eq!(s.meta.id, "a");
    assert_eq!(s.meta.name, "a", "name 缺省 = id，第二段后的 @meta 应被当注释忽略");
}

#[test]
fn meta_later_key_wins() {
    let src = r#"#!tblschema v1
# @meta id: a
# @meta id: b

[g/N] table
id | int | cs | x
"#;
    let s = parse_tblschema(src).expect("parse");
    assert_eq!(s.meta.id, "b");
}

#[test]
fn meta_unknown_key_ignored() {
    let src = r#"#!tblschema v1
# @meta id: a
# @meta future_field: 42

[g/N] table
id | int | cs | x
"#;
    let s = parse_tblschema(src).expect("parse");
    assert_eq!(s.meta.id, "a");
}

#[test]
fn legacy_no_meta_parses() {
    let src = r#"#!tblschema v1

[g/N] table
id | int | cs | x
"#;
    let s = parse_tblschema(src).expect("parse");
    assert_eq!(s.meta.id, "");
    assert_eq!(s.meta.name, "");
    assert_eq!(s.sections.len(), 1);
}

#[test]
fn fill_metadata_defaults_uses_stem() {
    let mut s = TblSchema::default();
    fill_metadata_defaults(&mut s, "myfile");
    assert_eq!(s.meta.id, "myfile");
    assert_eq!(s.meta.name, "myfile");

    // id 已存在 → 不覆盖；name 仍按 id 兜底
    let mut s2 = TblSchema::default();
    s2.meta.id = "explicit".to_string();
    fill_metadata_defaults(&mut s2, "stem");
    assert_eq!(s2.meta.id, "explicit");
    assert_eq!(s2.meta.name, "explicit");
}

#[test]
fn id_validation() {
    assert!(is_valid_metadata_id("full"));
    assert!(is_valid_metadata_id("slg-base"));
    assert!(is_valid_metadata_id("slg_base_2"));
    assert!(is_valid_metadata_id("a"));
    assert!(is_valid_metadata_id(&"a".repeat(32)));

    assert!(!is_valid_metadata_id(""));
    assert!(!is_valid_metadata_id(&"a".repeat(33)));
    assert!(!is_valid_metadata_id("Full"));            // 不接受大写
    assert!(!is_valid_metadata_id("foo bar"));          // 空格
    assert!(!is_valid_metadata_id("foo.bar"));          // 点
    assert!(!is_valid_metadata_id("中文"));
}

#[test]
fn serialize_round_trips_meta() {
    let mut s = TblSchema::default();
    s.meta.id = "demo".to_string();
    s.meta.name = "演示".to_string();
    s.meta.category = "test".to_string();
    s.meta.version = "0.1.0".to_string();
    s.sections.push(SchemaSection {
        group: "g".to_string(),
        name: "N".to_string(),
        mode: SchemaMode::Table,
        fields: vec![SchemaField {
            name: "id".to_string(),
            tbl_type: "int".to_string(),
            export: "cs".to_string(),
            desc: "x".to_string(),
        }],
        preset: Vec::new(),
    });
    let txt = serialize_tblschema(&s);
    assert!(txt.contains("# @meta id: demo"));
    assert!(txt.contains("# @meta name: 演示"));
    assert!(txt.contains("# @meta category: test"));
    assert!(txt.contains("# @meta version: 0.1.0"));

    let back = parse_tblschema(&txt).expect("re-parse");
    assert_eq!(back.meta.id, "demo");
    assert_eq!(back.meta.name, "演示");
    assert_eq!(back.meta.category, "test");
    assert_eq!(back.meta.version, "0.1.0");
    assert_eq!(back.sections.len(), 1);
}

#[test]
fn parses_preset_block_for_table() {
    let src = r#"#!tblschema v1
[hero/HeroBase] table
id   | int | cs | 英雄ID
name | str | cs | 名称
# @preset
1 | Alice
2 | Bob
"#;
    let s = parse_tblschema(src).expect("parse");
    assert_eq!(s.sections.len(), 1);
    assert_eq!(s.sections[0].fields.len(), 2);
    assert_eq!(s.sections[0].preset.len(), 2);
    assert_eq!(s.sections[0].preset[0], vec!["1", "Alice"]);
    assert_eq!(s.sections[0].preset[1], vec!["2", "Bob"]);
    assert!(s.meta.has_preset);
}

#[test]
fn parses_preset_block_for_constant() {
    let src = r#"#!tblschema v1
[global/GlobalConst] constant
# @preset
max_level | int | 100 | cs | 最大等级
"#;
    let s = parse_tblschema(src).expect("parse");
    assert_eq!(s.sections.len(), 1);
    assert_eq!(s.sections[0].mode, SchemaMode::Constant);
    assert!(s.sections[0].fields.is_empty(), "constant 段 fields 应为空");
    assert_eq!(s.sections[0].preset.len(), 1);
    assert_eq!(s.sections[0].preset[0], vec!["max_level", "int", "100", "cs", "最大等级"]);
    assert!(s.meta.has_preset);
}

#[test]
fn parses_preset_block_for_enum() {
    let src = r#"#!tblschema v1
[hero/HeroType] enum
# @preset
1 | Warrior | 战士
2 | Mage    | 法师
"#;
    let s = parse_tblschema(src).expect("parse");
    assert_eq!(s.sections.len(), 1);
    assert_eq!(s.sections[0].mode, SchemaMode::Enum);
    assert_eq!(s.sections[0].preset.len(), 2);
    assert!(s.meta.has_preset);
}

#[test]
fn constant_section_rejects_inline_entries() {
    let src = r#"#!tblschema v1
[global/GlobalConst] constant
max_level | int | cs | 最大等级
"#;
    let err = parse_tblschema(src).expect_err("constant 段不允许直接 entry 行");
    let msg = err.message();
    assert!(msg.contains("constant"), "msg = {}", msg);
    assert!(msg.contains("@preset"), "msg = {}", msg);
}

#[test]
fn enum_section_rejects_inline_entries() {
    let src = r#"#!tblschema v1
[hero/HeroType] enum
1 | Warrior | 战士
"#;
    let err = parse_tblschema(src).expect_err("enum 段不允许直接 entry 行");
    let msg = err.message();
    assert!(msg.contains("enum"), "msg = {}", msg);
    assert!(msg.contains("@preset"), "msg = {}", msg);
}

#[test]
fn preset_terminates_at_next_section() {
    let src = r#"#!tblschema v1
[a/T] table
id | int | cs | x
# @preset
1 | foo
[b/U] table
id | int | cs | y
"#;
    let s = parse_tblschema(src).expect("parse");
    assert_eq!(s.sections.len(), 2);
    assert_eq!(s.sections[0].preset.len(), 1);
    assert_eq!(s.sections[1].preset.len(), 0);
    assert_eq!(s.sections[1].fields.len(), 1);
}

#[test]
fn has_preset_recomputed_from_sections() {
    // schema 文件里写 has_preset: true，但实际 sections.preset 全空 → 重算为 false
    let src = r#"#!tblschema v1
# @meta has_preset: true

[g/N] table
id | int | cs | x
"#;
    let s = parse_tblschema(src).expect("parse");
    assert!(!s.meta.has_preset, "应该按 sections 重算");
}

#[test]
fn serialize_round_trips_preset() {
    let schema = TblSchema {
        meta: SchemaMetadata { id: "demo".into(), name: "demo".into(), ..Default::default() },
        separators: Default::default(),
        sections: vec![
            SchemaSection {
                group: "hero".into(),
                name: "HeroBase".into(),
                mode: SchemaMode::Table,
                fields: vec![
                    SchemaField { name: "id".into(), tbl_type: "int".into(), export: "cs".into(), desc: "ID".into() },
                    SchemaField { name: "name".into(), tbl_type: "str".into(), export: "cs".into(), desc: "名".into() },
                ],
                preset: vec![
                    vec!["1".into(), "Alice".into()],
                    vec!["2".into(), "Bob".into()],
                ],
            },
            SchemaSection {
                group: "global".into(),
                name: "GlobalConst".into(),
                mode: SchemaMode::Constant,
                fields: vec![],
                preset: vec![
                    vec!["max_level".into(), "int".into(), "100".into(), "cs".into(), "最大等级".into()],
                ],
            },
            SchemaSection {
                group: "hero".into(),
                name: "HeroType".into(),
                mode: SchemaMode::Enum,
                fields: vec![],
                preset: vec![
                    vec!["1".into(), "WARRIOR".into(), "战士".into()],
                ],
            },
        ],
    };
    let txt = serialize_tblschema(&schema);
    assert!(txt.contains("# @meta has_preset: true"), "txt = {}", txt);
    assert!(txt.contains("# @preset"));
    let back = parse_tblschema(&txt).expect("re-parse");
    assert_eq!(back.sections.len(), 3);
    assert!(back.meta.has_preset);
    assert_eq!(back.sections[0].preset.len(), 2);
    assert_eq!(back.sections[0].preset[0], vec!["1", "Alice"]);
    assert_eq!(back.sections[1].mode, SchemaMode::Constant);
    assert_eq!(back.sections[1].preset.len(), 1);
    assert_eq!(back.sections[1].preset[0], vec!["max_level", "int", "100", "cs", "最大等级"]);
    assert_eq!(back.sections[2].mode, SchemaMode::Enum);
    assert_eq!(back.sections[2].preset.len(), 1);
}

#[test]
fn serialize_constant_enum_no_inline_entries() {
    // Constant / Enum 段在 schema 文件里只剩段头（哪怕 fields 非空也不输出，
    // 因为新范式 entries 全在项目 .tbl 里）。
    let schema = TblSchema {
        meta: SchemaMetadata::default(),
        separators: Default::default(),
        sections: vec![
            SchemaSection {
                group: "g".into(),
                name: "C".into(),
                mode: SchemaMode::Constant,
                fields: vec![SchemaField {
                    name: "ignored".into(), tbl_type: "int".into(), export: "cs".into(), desc: "x".into()
                }],
                preset: vec![],
            },
            SchemaSection {
                group: "g".into(),
                name: "E".into(),
                mode: SchemaMode::Enum,
                fields: vec![SchemaField {
                    name: "WAR".into(), tbl_type: "1".into(), export: String::new(), desc: "".into()
                }],
                preset: vec![],
            },
        ],
    };
    let txt = serialize_tblschema(&schema);
    // 段头有
    assert!(txt.contains("[g/C] constant"));
    assert!(txt.contains("[g/E] enum"));
    // entry 行没有
    assert!(!txt.contains("ignored"));
    assert!(!txt.contains("WAR"));
    // 没有 preset 块
    assert!(!txt.contains("@preset"));
    assert!(!txt.contains("has_preset"));
}


#[test]
fn written_schema_reads_back_as_the_format_keeps_it() {
    let mut schema = TblSchema::default();
    schema.meta.id = "demo".to_string();
    schema.meta.category = "test".to_string();
    schema.separators.list = "/".to_string();
    schema.sections.push(SchemaSection {
        group: "hero".to_string(),
        name: "HeroBase".to_string(),
        mode: SchemaMode::Table,
        fields: vec![
            SchemaField { name: "id".to_string(), tbl_type: "int".to_string(), export: "cs".to_string(), desc: "编号".to_string() },
            SchemaField { name: "name".to_string(), tbl_type: "str".to_string(), export: "c".to_string(), desc: String::new() },
        ],
        preset: vec![vec!["1".to_string(), "Alice".to_string()]],
    });
    schema.sections.push(SchemaSection {
        group: "hero".to_string(),
        name: "HeroType".to_string(),
        mode: SchemaMode::Enum,
        fields: vec![SchemaField { name: "dropped".to_string(), tbl_type: "int".to_string(), export: String::new(), desc: String::new() }],
        preset: vec![vec!["1".to_string(), "WARRIOR".to_string(), "战士".to_string()]],
    });
    let back = parse_tblschema(&serialize_tblschema(&schema)).expect("re-parse");
    assert_eq!(back.meta.id, "demo");
    assert_eq!(back.meta.name, "demo");
    assert_eq!(back.meta.category, "test");
    assert!(back.meta.has_preset);
    assert_eq!(back.separators.list, "/");
    assert_eq!(back.sections.len(), 2);
    assert_eq!(back.sections[0].fields.len(), 2);
    assert_eq!(back.sections[0].fields[1].name, "name");
    assert_eq!(back.sections[0].fields[1].desc, "");
    assert_eq!(back.sections[0].preset, vec![vec!["1".to_string(), "Alice".to_string()]]);
    assert_eq!(back.sections[1].mode, SchemaMode::Enum);
    assert!(back.sections[1].fields.is_empty());
    assert_eq!(back.sections[1].preset[0][2], "战士");
}
