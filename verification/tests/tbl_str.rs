use tablet_core::tbl_str::{decode, encode, needs_escape, split_row};

#[test]
fn needs_escape_txt() {
    assert!(needs_escape("txt"));
    // non-txt
    assert!(!needs_escape("str"));
    assert!(!needs_escape("int"));
    assert!(!needs_escape("bool"));
    assert!(!needs_escape("List<str>"));
    assert!(!needs_escape("Map<int,str>"));
    assert!(!needs_escape("Tuple2<str,int>"));
    // invalid → safe fallback
    assert!(needs_escape("unknown"));
}

#[test]
fn text_round_trip() {
    let cases = ["hello", "中文", "a|b", "line1\nline2", "col1\tcol2",
        "path\\to\\file", r#"<div>Hi</div>"#, "", "\\", "||"];
    for s in cases {
        let enc = encode(s, "txt");
        let dec = decode(&enc, "txt");
        assert_eq!(dec, s, "txt round-trip failed for: {:?}", s);
    }
}

#[test]
fn atom_passthrough_clean() {
    for s in ["42", "true", "3.14", "1;2;3", "1,2", "hello", "中文"] {
        assert_eq!(encode(s, "int"), s);
        assert_eq!(decode(s, "int"), s);
        assert_eq!(encode(s, "str"), s);
        assert_eq!(decode(s, "str"), s);
        assert_eq!(encode(s, "List<str>"), s);
        assert_eq!(decode(s, "List<str>"), s);
    }
}

#[test]
fn txt_encoding_specific() {
    assert_eq!(encode("a|b", "txt"), "a\\|b");
    assert_eq!(encode("a\nb", "txt"), "a\\nb");
    assert_eq!(encode("a\\b", "txt"), "a\\\\b");
}

#[test]
fn split_row_respects_escape() {
    let r = split_row("a\\|b|c");
    assert_eq!(r, vec!["a\\|b", "c"]);
}

#[test]
fn split_row_empty_fields() {
    let r = split_row("a||b");
    assert_eq!(r, vec!["a", "", "b"]);
}

#[test]
fn fast_path_no_special_chars() {
    let s = "hello 中文 <div>";
    assert_eq!(encode(s, "txt"), s);
    assert_eq!(decode(s, "txt"), s);
    assert_eq!(encode(s, "int"), s);
    assert_eq!(decode(s, "int"), s);
}

#[test]
fn split_row_then_decode_restores_escaped_cells() {
    let cells = split_row("a\\|b|c\\nd|");
    assert_eq!(cells, vec!["a\\|b", "c\\nd", ""]);
    assert_eq!(decode(&cells[0], "txt"), "a|b");
    assert_eq!(decode(&cells[1], "txt"), "c\nd");
}
