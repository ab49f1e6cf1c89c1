use tablet_core::export::csharp::{cs_base_type, cs_field_type, cs_parse_expr, gen_enum_file, CSharpRuntime};
use tablet_core::model::{EnumDef, EnumEntry};
use tablet_core::types::{BaseType, TblType};

fn no_enums() -> Vec<String> {
    Vec::new()
}

#[test]
fn csharp_base_types() {
    assert_eq!(cs_base_type(BaseType::Int), "int");
    assert_eq!(cs_base_type(BaseType::Long), "long");
    assert_eq!(cs_base_type(BaseType::Str), "string");
    assert_eq!(cs_base_type(BaseType::Bool), "bool");
}

#[test]
fn csharp_field_type_paradigms() {
    let e = no_enums();
    assert_eq!(cs_field_type("int", &e), "int");
    assert_eq!(cs_field_type("str", &e), "string");
    assert_eq!(cs_field_type("Tuple2<int,str>", &e), "Tuple2<int, string>");
    assert_eq!(cs_field_type("List<int>", &e), "List<int>");
    assert_eq!(cs_field_type("Set<int>", &e), "HashSet<int>");
    assert_eq!(cs_field_type("Map<int,str>", &e), "Dictionary<int, string>");
    assert_eq!(cs_field_type("Map<str,List<int>>", &e), "Dictionary<string, List<int>>");
    assert_eq!(cs_field_type("@HeroBase", &e), "int");
}

#[test]
fn csharp_ref_to_enum_uses_enum_type() {
    let e = vec!["HeroType".to_string()];
    assert_eq!(cs_field_type("@HeroType", &e), "HeroTypeEnum");
}

#[test]
fn csharp_parse_expr_for_base_and_list() {
    let t = TblType::parse("int").unwrap();
    assert_eq!(cs_parse_expr("raw", &t, "sep", &no_enums()), "TblParse.ParseInt32(raw)");

    let t = TblType::parse("List<int>").unwrap();
    let expr = cs_parse_expr("raw", &t, "sep", &no_enums());
    assert!(expr.contains("TblParse.ParseList<int>"));
    assert!(expr.contains("sep.List"));
}

#[test]
fn csharp_parse_expr_for_map_list() {
    let t = TblType::parse("Map<str,List<int>>").unwrap();
    let expr = cs_parse_expr("raw", &t, "sep", &no_enums());
    assert!(expr.contains("TblParse.ParseMap<string, List<int>>"));
    assert!(expr.contains("sep.MapListKv"));
    assert!(expr.contains("sep.MapListEntry"));
    assert!(expr.contains("sep.MapListItem"));
}

#[test]
fn ref_enum_parse_uses_cast() {
    let e = vec!["HeroType".to_string()];
    let t = TblType::parse("@HeroType").unwrap();
    let expr = cs_parse_expr("raw", &t, "sep", &e);
    assert_eq!(expr, "(HeroTypeEnum)TblParse.ParseInt32(raw)");
}

#[test]
fn csharp_enum_gen() {
    let e = EnumDef {
        name: "HeroType".to_string(),
        path: String::new(),
        entries: vec![
            EnumEntry { id: "1".to_string(), name: "Warrior".to_string(), desc: "战士".to_string() },
            EnumEntry { id: "2".to_string(), name: "Mage".to_string(), desc: "法师".to_string() },
        ],
        dirty: false, deleted: false, saved_text: String::new(),
    };
    let out = gen_enum_file(&e, "Game.Config");
    assert!(out.contains("namespace Game.Config"));
    assert!(out.contains("public enum HeroTypeEnum : int"));
    assert!(out.contains("Warrior = 1,"));
    assert!(out.contains("Mage = 2,"));
    assert!(out.contains("HeroTypeEnumExt"));
    assert!(out.contains("\"战士\""));
}

#[test]
fn csharp_runtime_defaults() {
    assert_eq!(CSharpRuntime::Dotnet.default_namespace(), "Game.Config.Server");
    assert_eq!(CSharpRuntime::Unity.default_namespace(), "Game.Config.Client");
    assert_eq!(CSharpRuntime::Godot.default_code_output(), "gen/client/csharp_godot");
    assert!(CSharpRuntime::Dotnet.is_server());
    assert!(!CSharpRuntime::Unity.is_server());
}
