use tablet_core::enums::{Encoding, LineEnding};
use tablet_core::model::ProjectConfig;
use tablet_core::overrides::{apply_overrides, OverrideWarning};

#[test]
fn overrides_set_encoding_and_line_ending() {
    let mut cfg = ProjectConfig::default();
    let out = apply_overrides(&mut cfg, &["export.encoding=gbk".to_string(), "export.line_ending=crlf".to_string()]);
    assert!(out.warnings.is_empty());
    let e = cfg.export.expect("export section is created");
    assert_eq!(e.encoding, Some(Encoding::Gbk));
    assert_eq!(e.line_ending, Some(LineEnding::CrLf));
}

#[test]
fn overrides_warn_on_bad_items() {
    let mut cfg = ProjectConfig::default();
    let out = apply_overrides(
        &mut cfg,
        &["no_equals".to_string(), "project.config_dir=x".to_string(), "what.is.this=1".to_string()],
    );
    assert_eq!(out.warnings.len(), 3);
    assert!(matches!(&out.warnings[0], OverrideWarning::InvalidFormat(s) if s == "no_equals"));
    assert!(matches!(&out.warnings[1], OverrideWarning::Deprecated { key, .. } if key == "project.config_dir"));
    assert!(matches!(&out.warnings[2], OverrideWarning::Unknown(k) if k == "what.is.this"));
    assert!(cfg.export.is_none());
}

#[test]
fn overrides_later_item_wins() {
    let mut cfg = ProjectConfig::default();
    let out = apply_overrides(&mut cfg, &["export.encoding=gbk".to_string(), "export.encoding=big5".to_string()]);
    assert!(out.warnings.is_empty());
    assert_eq!(cfg.export.unwrap().encoding, Some(Encoding::Big5));
}
