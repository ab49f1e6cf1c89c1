use tablet_core::enums::{Encoding, LineEnding};
use tablet_core::file_text::file_bytes;

#[test]
fn names_read_in_any_letter_case() {
    assert_eq!(Encoding::parse_name("  GBK "), Ok(Encoding::Gbk));
    assert_eq!(Encoding::parse_name("UTF8"), Ok(Encoding::Utf8));
    assert_eq!(LineEnding::parse_name("CrLf"), Ok(LineEnding::CrLf));
    assert_eq!(Encoding::parse_name("latin1"), Err("Unknown encoding: latin1".to_string()));
}

#[test]
fn names_and_line_bytes() {
    assert_eq!(Encoding::Utf16Le.as_str(), "utf-16le");
    assert_eq!(LineEnding::CrLf.as_bytes(), vec![13u8, 10u8]);
    assert_eq!(LineEnding::default(), LineEnding::Lf);
    assert_eq!("lf".parse::<LineEnding>(), Ok(LineEnding::Lf));
}

#[test]
fn every_encoding_name_reads_back() {
    let all = [
        Encoding::Utf8,
        Encoding::Utf8Bom,
        Encoding::Utf16Le,
        Encoding::Utf16Be,
        Encoding::Gb2312,
        Encoding::Gbk,
        Encoding::Big5,
    ];
    for e in all {
        assert_eq!(Encoding::parse_name(e.as_str()), Ok(e));
    }
    for (i, a) in all.iter().enumerate() {
        for b in &all[i + 1..] {
            assert_ne!(a.as_str(), b.as_str());
        }
    }
}

#[test]
fn file_bytes_follow_line_ending_and_encoding() {
    assert_eq!(file_bytes("a\nb", LineEnding::CrLf, Encoding::Utf8), b"a\r\nb".to_vec());
    assert_eq!(file_bytes("a\n", LineEnding::Cr, Encoding::Utf8Bom), vec![0xEF, 0xBB, 0xBF, b'a', b'\r']);
    assert_eq!(file_bytes("é", LineEnding::Lf, Encoding::Utf16Le), vec![0xFF, 0xFE, 0xE9, 0x00]);
    assert_eq!(file_bytes("😀", LineEnding::Lf, Encoding::Utf16Be), vec![0xFE, 0xFF, 0xD8, 0x3D, 0xDE, 0x00]);
    assert_eq!(file_bytes("中", LineEnding::Lf, Encoding::Gbk), "中".as_bytes().to_vec());
}
