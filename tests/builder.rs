use leanbar::builder::{atlas_file_name, sanitize_font_name};
use leanbar::{maybe_run_builder_mode, BuilderError};

fn args(v: &[&str]) -> Vec<String> {
    v.iter().map(|s| s.to_string()).collect()
}

#[test]
fn normal_runs_are_not_builder_runs() {
    assert!(matches!(maybe_run_builder_mode(&args(&["leanbar"])), Ok(None)));
    assert!(matches!(maybe_run_builder_mode(&args(&[])), Ok(None)));
    assert!(matches!(maybe_run_builder_mode(&args(&["leanbar", "--verbose", "a", "b", "c"])), Ok(None)));
    assert!(matches!(maybe_run_builder_mode(&args(&["leanbar", "--build-font-atlas2"])), Ok(None)));
}

#[test]
fn builder_run_arguments() {
    let r = maybe_run_builder_mode(&args(&["leanbar", "--build-font-atlas", "/f.ttf", "16.00", "/tmp/a.bin"]))
        .unwrap()
        .unwrap();
    assert_eq!(r.font_path, "/f.ttf");
    assert_eq!(r.size, "16.00");
    assert_eq!(r.atlas_path, "/tmp/a.bin");
}

#[test]
fn builder_run_missing_arguments() {
    assert_eq!(
        maybe_run_builder_mode(&args(&["leanbar", "--build-font-atlas"])).err(),
        Some(BuilderError::MissingFontPath)
    );
    assert_eq!(
        maybe_run_builder_mode(&args(&["leanbar", "--build-font-atlas", "/f.ttf"])).err(),
        Some(BuilderError::MissingSize)
    );
    assert_eq!(
        maybe_run_builder_mode(&args(&["leanbar", "--build-font-atlas", "/f.ttf", "16"])).err(),
        Some(BuilderError::MissingAtlasPath)
    );
}

#[test]
fn font_names_are_sanitized() {
    assert_eq!(sanitize_font_name("SauceCodePro-Regular_1"), b"SauceCodePro-Regular_1".to_vec());
    assert_eq!(sanitize_font_name("My Font.v2"), b"My_Font_v2".to_vec());
    assert_eq!(sanitize_font_name("Größe"), b"Gr__e".to_vec());
    assert_eq!(sanitize_font_name(""), Vec::<u8>::new());
}

#[test]
fn atlas_file_names() {
    assert_eq!(
        String::from_utf8(atlas_file_name("SauceCodePro Regular", 1234567890123, 160)).unwrap(),
        "font_atlas_SauceCodePro_Regular_1234567890123_160.bin"
    );
    assert_eq!(
        String::from_utf8(atlas_file_name("a", 0, 5)).unwrap(),
        "font_atlas_a_0_05.bin"
    );
    assert_eq!(
        String::from_utf8(atlas_file_name("b", u64::MAX, 10)).unwrap(),
        format!("font_atlas_b_{}_10.bin", u64::MAX)
    );
}
