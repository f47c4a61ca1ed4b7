//! The flat attribute store: append order, indexing, clearing, and range
//! rendering.
use fbx_tree_view::attribute::Attribute;
use fbx_tree_view::store::AttributeStore;

#[test]
fn attributes_keep_their_append_order() {
    let mut store = AttributeStore::new();
    assert_eq!(store.len(), 0);
    store.push_attribute(Attribute::SingleI32(1));
    store.push_attribute(Attribute::SingleBool(false));
    store.push_attribute(Attribute::String("x".to_string()));
    assert_eq!(store.len(), 3);
    assert_eq!(store.get(0).value_string(), "1");
    assert_eq!(store.get(1).value_string(), "false");
    assert_eq!(store.get(2).value_string(), "x");
}

#[test]
fn clear_empties_the_store() {
    let mut store = AttributeStore::new();
    store.push_attribute(Attribute::SingleI16(9));
    store.clear();
    assert_eq!(store.len(), 0);
}

#[test]
fn show_attrs_renders_exactly_the_requested_range() {
    let mut store = AttributeStore::new();
    store.push_attribute(Attribute::SingleI32(10));
    store.push_attribute(Attribute::SingleI32(20));
    store.push_attribute(Attribute::SingleI32(30));
    let rows = store.show_attrs(1, 2);
    assert_eq!(rows.len(), 2);
    assert_eq!(rows[0], ("i32".to_string(), "20".to_string()));
    assert_eq!(rows[1], ("i32".to_string(), "30".to_string()));
    let empty = store.show_attrs(3, 0);
    assert!(empty.is_empty());
}
