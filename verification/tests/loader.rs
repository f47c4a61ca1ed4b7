//! The attribute loader maps each tokenizer-classified payload to exactly
//! the matching attribute case.
use fbx_tree_view::attribute::{Attribute, AttributeLoader, F32Value, F64Value, RawAttr};

#[test]
fn expecting_names_any_attributes() {
    assert_eq!(AttributeLoader.expecting(), "any attributes");
}

#[test]
fn scalar_loads_produce_matching_cases() {
    assert!(matches!(AttributeLoader.load_bool(true), Attribute::SingleBool(true)));
    assert!(matches!(AttributeLoader.load_i16(-3), Attribute::SingleI16(-3)));
    assert!(matches!(AttributeLoader.load_i32(7), Attribute::SingleI32(7)));
    assert!(matches!(AttributeLoader.load_i64(-9), Attribute::SingleI64(-9)));
    let f = AttributeLoader.load_f32(F32Value { bits: 1.0f32.to_bits(), text: "1".to_string() });
    assert!(matches!(f, Attribute::SingleF32(_)));
    let d = AttributeLoader.load_f64(F64Value { bits: 2.0f64.to_bits(), text: "2".to_string() });
    assert!(matches!(d, Attribute::SingleF64(_)));
}

#[test]
fn array_loads_keep_order() {
    match AttributeLoader.load_seq_i32(vec![3, 1, 2]) {
        Attribute::ArrayI32(vs) => assert_eq!(vs, vec![3, 1, 2]),
        other => panic!("unexpected case: {}", other.type_string()),
    }
    match AttributeLoader.load_seq_bool(vec![false, true]) {
        Attribute::ArrayBool(vs) => assert_eq!(vs, vec![false, true]),
        other => panic!("unexpected case: {}", other.type_string()),
    }
    match AttributeLoader.load_seq_i64(vec![-1]) {
        Attribute::ArrayI64(vs) => assert_eq!(vs, vec![-1]),
        other => panic!("unexpected case: {}", other.type_string()),
    }
}

#[test]
fn binary_load_copies_bytes_verbatim() {
    match AttributeLoader.load_binary(vec![0, 127, 255]) {
        Attribute::Binary(bs) => assert_eq!(bs, vec![0, 127, 255]),
        other => panic!("unexpected case: {}", other.type_string()),
    }
}

#[test]
fn raw_dispatch_matches_the_direct_loads() {
    let a = AttributeLoader.load(RawAttr::I32(41));
    assert_eq!(a.type_string(), "i32");
    assert_eq!(a.value_string(), "41");
    let b = AttributeLoader.load(RawAttr::Text(vec![0xc3, 0x28]));
    assert_eq!(b.type_string(), "[u8]");
    assert_eq!(b.value_string(), "c3, 28, ");
    let c = AttributeLoader.load(RawAttr::SeqF64(vec![F64Value {
        bits: 0.5f64.to_bits(),
        text: 0.5f64.to_string(),
    }]));
    assert_eq!(c.type_string(), "[f64]");
    assert_eq!(c.value_string(), "0.5, ");
}
