//! Rendering of scalar attribute values.
use fbx_tree_view::attribute::{Attribute, F32Value, F64Value};

#[test]
fn type_labels_cover_every_case() {
    assert_eq!(Attribute::SingleBool(true).type_string(), "bool");
    assert_eq!(Attribute::SingleI16(0).type_string(), "i16");
    assert_eq!(Attribute::SingleI32(0).type_string(), "i32");
    assert_eq!(Attribute::SingleI64(0).type_string(), "i64");
    assert_eq!(
        Attribute::SingleF32(F32Value { bits: 0, text: "0".to_string() }).type_string(),
        "f32"
    );
    assert_eq!(
        Attribute::SingleF64(F64Value { bits: 0, text: "0".to_string() }).type_string(),
        "f64"
    );
    assert_eq!(Attribute::ArrayBool(vec![]).type_string(), "[bool]");
    assert_eq!(Attribute::ArrayI32(vec![]).type_string(), "[i32]");
    assert_eq!(Attribute::ArrayI64(vec![]).type_string(), "[i64]");
    assert_eq!(Attribute::ArrayF32(vec![]).type_string(), "[f32]");
    assert_eq!(Attribute::ArrayF64(vec![]).type_string(), "[f64]");
    assert_eq!(Attribute::String(String::new()).type_string(), "String");
    assert_eq!(Attribute::Binary(vec![]).type_string(), "[u8]");
}

#[test]
fn bool_scalars_render_as_words() {
    assert_eq!(Attribute::SingleBool(true).value_string(), "true");
    assert_eq!(Attribute::SingleBool(false).value_string(), "false");
}

#[test]
fn integer_scalars_render_in_decimal() {
    assert_eq!(Attribute::SingleI16(0).value_string(), "0");
    assert_eq!(Attribute::SingleI16(-5).value_string(), "-5");
    assert_eq!(Attribute::SingleI32(123456).value_string(), "123456");
    assert_eq!(Attribute::SingleI32(-2147483648).value_string(), "-2147483648");
    assert_eq!(Attribute::SingleI64(9223372036854775807).value_string(), "9223372036854775807");
    assert_eq!(Attribute::SingleI64(i64::MIN).value_string(), "-9223372036854775808");
    assert_eq!(Attribute::SingleI16(i16::MIN).value_string(), i16::MIN.to_string());
    assert_eq!(Attribute::SingleI64(42).value_string(), 42i64.to_string());
}

#[test]
fn float_scalars_render_their_display_text() {
    let v = 1.5f32;
    let attr = Attribute::SingleF32(F32Value { bits: v.to_bits(), text: v.to_string() });
    assert_eq!(attr.value_string(), "1.5");
    let w = -0.25f64;
    let attr64 = Attribute::SingleF64(F64Value { bits: w.to_bits(), text: w.to_string() });
    assert_eq!(attr64.value_string(), "-0.25");
}

#[test]
fn rendering_twice_gives_identical_strings() {
    let attrs = vec![
        Attribute::SingleI32(-77),
        Attribute::String("a\rb\u{1}c".to_string()),
        Attribute::Binary(vec![1, 2, 3]),
        Attribute::ArrayI64(vec![5, -6, 7]),
    ];
    for a in &attrs {
        assert_eq!(a.value_string(), a.value_string());
        assert_eq!(a.type_string(), a.type_string());
    }
}
