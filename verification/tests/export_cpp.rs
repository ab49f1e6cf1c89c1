use tablet_core::export::cpp::{cpp_base_type, cpp_field_type, cpp_parse_expr, gen_enum_header};
use tablet_core::model::{EnumDef, EnumEntry};
use tablet_core::types::{BaseType, TblType};

fn no_enums() -> Vec<String> {
    Vec::new()
}

fn hero_type() -> EnumDef {
    EnumDef {
        name: "HeroType".to_string(),
        path: String::new(),
        entries: vec![
            EnumEntry { id: "1".to_string(), name: "Warrior".to_string(), desc: "战士".to_string() },
            EnumEntry { id: "2".to_string(), name: "Mage".to_string(), desc: "法师".to_string() },
        ],
        dirty: false,
        deleted: false,
        saved_text: String::new(),
    }
}

#[test]
fn cpp_base_types() {
    assert_eq!(cpp_base_type(BaseType::Int), "int32_t");
    assert_eq!(cpp_base_type(BaseType::Long), "int64_t");
    assert_eq!(cpp_base_type(BaseType::Float), "float");
    assert_eq!(cpp_base_type(BaseType::Str), "std::string");
    assert_eq!(cpp_base_type(BaseType::Bool), "bool");
}

#[test]
fn cpp_field_type_paradigms() {
    let e = no_enums();
    assert_eq!(cpp_field_type("int", &e), "int32_t");
    assert_eq!(cpp_field_type("str", &e), "std::string");
    assert_eq!(cpp_field_type("Tuple2<int,str>", &e), "Tuple2<int32_t, std::string>");
    assert_eq!(cpp_field_type("List<int>", &e), "std::vector<int32_t>");
    assert_eq!(cpp_field_type("Set<int>", &e), "std::unordered_set<int32_t>");
    assert_eq!(cpp_field_type("Map<int,str>", &e), "std::unordered_map<int32_t, std::string>");
    assert_eq!(cpp_field_type("Map<str,List<int>>", &e), "std::unordered_map<std::string, std::vector<int32_t>>");
    assert_eq!(cpp_field_type("@HeroBase", &e), "int32_t");
}

#[test]
fn cpp_ref_to_enum_uses_enum_type() {
    let e = vec!["HeroType".to_string()];
    assert_eq!(cpp_field_type("@HeroType", &e), "HeroTypeEnum");
}

#[test]
fn cpp_parse_expr_for_base_and_list() {
    let t = TblType::parse("int").unwrap();
    let expr = cpp_parse_expr("raw", &t, "sep", &no_enums());
    assert_eq!(expr, "parse_int32(raw)");

    let t = TblType::parse("List<int>").unwrap();
    let expr = cpp_parse_expr("raw", &t, "sep", &no_enums());
    assert!(expr.contains("parse_list<int32_t>"));
    assert!(expr.contains("sep.list"));
}

#[test]
fn cpp_parse_expr_for_map_list() {
    let t = TblType::parse("Map<str,List<int>>").unwrap();
    let expr = cpp_parse_expr("raw", &t, "sep", &no_enums());
    assert!(expr.contains("parse_map<std::string, std::vector<int32_t>>"));
    assert!(expr.contains("sep.map_list_kv"));
    assert!(expr.contains("sep.map_list_entry"));
    assert!(expr.contains("sep.map_list_item"));
}

#[test]
fn cpp_enum_gen() {
    let e = hero_type();
    let out = gen_enum_header(&e, "game::config");
    assert!(out.contains("namespace game::config"));
    assert!(out.contains("enum class HeroTypeEnum : int32_t"));
    assert!(out.contains("Warrior = 1,"));
    assert!(out.contains("Mage = 2,"));
    assert!(out.contains("HeroTypeEnum_desc"));
    assert!(out.contains("return \"战士\""));
}

#[test]
fn cpp_unknown_type_falls_back_to_string() {
    assert_eq!(cpp_field_type("NotAType<", &no_enums()), "std::string");
}
