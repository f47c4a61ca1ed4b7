//! Control-character escaping of text attributes and the lossless fallback
//! for bytes that are not valid UTF-8.
use fbx_tree_view::attribute::{Attribute, AttributeLoader};

#[test]
fn control_byte_is_hex_escaped() {
    let attr = Attribute::String("a\u{1}b".to_string());
    assert_eq!(attr.value_string(), "a\\x01b");
}

#[test]
fn carriage_return_becomes_backslash_r() {
    let attr = Attribute::String("x\ry".to_string());
    assert_eq!(attr.value_string(), "x\\ry");
}

#[test]
fn newline_and_tab_pass_through() {
    let attr = Attribute::String("a\nb\tc".to_string());
    assert_eq!(attr.value_string(), "a\nb\tc");
}

#[test]
fn delete_character_is_hex_escaped() {
    let attr = Attribute::String("\u{7f}".to_string());
    assert_eq!(attr.value_string(), "\\x7f");
}

#[test]
fn plain_text_is_unchanged() {
    let attr = Attribute::String("Geometry01 ü β".to_string());
    assert_eq!(attr.value_string(), "Geometry01 ü β");
}

#[test]
fn valid_utf8_loads_as_text() {
    let attr = AttributeLoader.load_string(b"Model".to_vec());
    assert_eq!(attr.type_string(), "String");
    assert_eq!(attr.value_string(), "Model");
}

#[test]
fn invalid_utf8_keeps_raw_bytes_and_renders_hex() {
    let attr = AttributeLoader.load_string(vec![0xff, 0xfe]);
    assert_eq!(attr.type_string(), "[u8]");
    assert_eq!(attr.value_string(), "ff, fe, ");
}

#[test]
fn invalid_utf8_in_the_middle_is_kept_losslessly() {
    let attr = AttributeLoader.load_string(vec![b'a', 0x80, b'b']);
    assert_eq!(attr.type_string(), "[u8]");
    assert_eq!(attr.value_string(), "61, 80, 62, ");
}
