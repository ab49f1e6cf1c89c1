use tablet_core::enums::ModuleKind;
use tablet_core::export::typescript::{
    base_to_ts, base_to_ts_type, export_enum_ts, ts_field_type, value_to_ts, TsPiece,
};
use tablet_core::model::{EnumDef, EnumEntry};
use tablet_core::types::{BaseType, SeparatorsSection};

fn sep() -> SeparatorsSection {
    SeparatorsSection::default()
}

/// Writes pieces as text, a float piece the way Rust prints the parsed
/// `f64` (`0` when it does not parse).
fn render(ps: &[TsPiece]) -> String {
    let mut s = String::new();
    for p in ps {
        match p {
            TsPiece::Text(t) => s.push_str(t),
            TsPiece::Float(raw) => s.push_str(
                &raw.parse::<f64>().map(|v| v.to_string()).unwrap_or_else(|_| "0".to_string()),
            ),
        }
    }
    s
}

fn ts_value(raw: &str, t: &str, s: &SeparatorsSection) -> String {
    render(&value_to_ts(raw, t, s))
}

#[test]
fn typescript_base_types() {
    assert_eq!(base_to_ts_type(BaseType::Int), "number");
    assert_eq!(base_to_ts_type(BaseType::Long), "number");
    assert_eq!(base_to_ts_type(BaseType::Float), "number");
    assert_eq!(base_to_ts_type(BaseType::Str), "string");
    assert_eq!(base_to_ts_type(BaseType::Bool), "boolean");
}

#[test]
fn typescript_field_type_paradigms() {
    assert_eq!(ts_field_type("int"), "number");
    assert_eq!(ts_field_type("str"), "string");
    assert_eq!(ts_field_type("bool"), "boolean");
    assert_eq!(ts_field_type("Tuple2<int,str>"), "[number, string]");
    assert_eq!(ts_field_type("Tuple4<int,int,int,int>"), "[number, number, number, number]");
    assert_eq!(ts_field_type("List<int>"), "number[]");
    assert_eq!(ts_field_type("Set<str>"), "string[]");
    assert_eq!(ts_field_type("Map<int,str>"), "Record<number, string>");
    assert_eq!(ts_field_type("List<Tuple2<int,str>>"), "[number, string][]");
    assert_eq!(ts_field_type("Map<str,Tuple2<int,int>>"), "Record<string, [number, number]>");
    assert_eq!(ts_field_type("Map<str,List<int>>"), "Record<string, number[]>");
    assert_eq!(ts_field_type("@HeroBase"), "number");
}

#[test]
fn value_str_escape() {
    assert_eq!(render(&base_to_ts("a\"b", BaseType::Str)), r#""a\"b""#);
    assert_eq!(render(&base_to_ts("a\nb", BaseType::Str)), r#""a\nb""#);
}

#[test]
fn value_tuple_list() {
    let s = sep();
    assert_eq!(ts_value("1,foo", "Tuple2<int,str>", &s), "[1, \"foo\"]");
    assert_eq!(ts_value("1;2;3", "List<int>", &s), "[1, 2, 3]");
    assert_eq!(ts_value("a;b", "Set<str>", &s), "[\"a\", \"b\"]");
}

#[test]
fn value_map() {
    let s = sep();
    // Map<str,int>: entry=";", kv=":"
    let out = ts_value("hp:100;mp:50", "Map<str,int>", &s);
    assert_eq!(out, "{ hp: 100, mp: 50 }");
    // 非 identifier key 加引号
    let out = ts_value("hp/max:100", "Map<str,int>", &s);
    assert!(out.contains("\"hp/max\": 100"), "got {}", out);
    // int 键裸数字
    let out = ts_value("1:a;2:b", "Map<int,str>", &s);
    assert_eq!(out, "{ 1: \"a\", 2: \"b\" }");
}

#[test]
fn value_map_list() {
    let s = sep();
    let out = ts_value("a:1,2,3;b:4,5", "Map<str,List<int>>", &s);
    assert_eq!(out, "{ a: [1, 2, 3], b: [4, 5] }");
}

#[test]
fn ref_value_outputs_int() {
    let s = sep();
    assert_eq!(ts_value("42", "@HeroBase", &s), "42");
}

#[test]
fn typescript_enum_gen() {
    let e = EnumDef {
        name: "HeroType".to_string(),
        path: String::new(),
        entries: vec![
            EnumEntry { id: "1".to_string(), name: "Warrior".to_string(), desc: "战士".to_string() },
            EnumEntry { id: "2".to_string(), name: "Mage".to_string(), desc: "法师".to_string() },
        ],
        dirty: false,
        deleted: false,
        saved_text: String::new(),
    };
    let out = export_enum_ts(&e, ModuleKind::Esm);
    assert!(out.contains("export enum HeroTypeEnum {"));
    assert!(out.contains("Warrior = 1,"));
    assert!(out.contains("Mage = 2,"));
    assert!(out.contains("export const HeroTypeEnumDesc: Record<HeroTypeEnum, string>"));
    assert!(out.contains("[HeroTypeEnum.Warrior]: \"战士\","));
}

#[test]
fn float_values_are_left_to_the_caller() {
    let ps = base_to_ts("1.50", BaseType::Float);
    assert_eq!(ps.len(), 1);
    assert!(matches!(&ps[0], TsPiece::Float(raw) if raw == "1.50"));
    assert_eq!(render(&ps), "1.5");
    assert_eq!(render(&base_to_ts("x", BaseType::Double)), "0");
}

#[test]
fn int_and_bool_values() {
    assert_eq!(render(&base_to_ts("007", BaseType::Int)), "7");
    assert_eq!(render(&base_to_ts("abc", BaseType::Long)), "0");
    assert_eq!(render(&base_to_ts("1", BaseType::Bool)), "true");
    assert_eq!(render(&base_to_ts("yes", BaseType::Bool)), "false");
    assert_eq!(ts_value("", "int", &sep()), "null");
}
