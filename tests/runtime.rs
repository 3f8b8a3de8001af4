use mtga_tauri::runtime::{runtime_script_from_json, runtime_tag, runtime_tag_script};

#[test]
fn runtime_tag_defaults_to_dev() {
    assert_eq!(runtime_tag(None), "dev");
}

#[test]
fn runtime_tag_is_trimmed_and_lowercased() {
    assert_eq!(runtime_tag(Some("  Tauri\n")), "tauri");
    assert_eq!(runtime_tag(Some("PROD")), "prod");
    assert_eq!(runtime_tag(Some("   ")), "");
}

#[test]
fn runtime_script_encodes_tag() {
    assert_eq!(runtime_tag_script("dev"), "window.__MTGA_RUNTIME__ = \"dev\";");
    assert_eq!(runtime_tag_script("a\"b"), "window.__MTGA_RUNTIME__ = \"a\\\"b\";");
}

#[test]
fn runtime_script_from_given_json() {
    assert_eq!(runtime_script_from_json(Some("\"x\"".to_string())), "window.__MTGA_RUNTIME__ = \"x\";");
    assert_eq!(runtime_script_from_json(None), "window.__MTGA_RUNTIME__ = \"dev\";");
}

#[test]
fn runtime_script_escapes_control_characters() {
    assert_eq!(runtime_tag_script("a\nb\u{1}\\"), "window.__MTGA_RUNTIME__ = \"a\\nb\\u0001\\\\\";");
    assert_eq!(runtime_tag_script("é\u{7f}"), "window.__MTGA_RUNTIME__ = \"é\u{7f}\";");
}

#[test]
fn runtime_tag_trims_unicode_white_space() {
    assert_eq!(runtime_tag(Some("\u{3000}Dev\u{85}")), "dev");
}
