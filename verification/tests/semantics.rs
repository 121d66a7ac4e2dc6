use sapi_lite::stt::{decode_value, SemanticTree, SemanticValue};
use sapi_lite::stt::{TAG_BOOL, TAG_DOUBLE, TAG_EMPTY, TAG_FLOAT, TAG_INT};

#[test]
fn cross_type_comparison_int() {
    assert!(SemanticValue::Int(4) == 4);
    assert!(!(SemanticValue::Int(4) == 5));
    assert!(!(SemanticValue::Int(4) == "4"));
}

#[test]
fn cross_type_comparison_wrong_variant() {
    assert!(!(SemanticValue::String(String::from("x")) == SemanticValue::Int(1)));
    assert!(!(SemanticValue::Bool(true) == 1));
    assert!(!(SemanticValue::Int(1) == true));
}

#[test]
fn cross_type_comparison_bool_and_string() {
    assert!(SemanticValue::Bool(true) == true);
    assert!(!(SemanticValue::Bool(true) == false));
    assert!(SemanticValue::String(String::from("pm")) == "pm");
    assert!(!(SemanticValue::String(String::from("pm")) == "am"));
}

#[test]
fn same_variant_equality() {
    assert_eq!(SemanticValue::Int(7), SemanticValue::Int(7));
    assert_ne!(SemanticValue::Int(7), SemanticValue::Int(8));
    assert_eq!(
        SemanticValue::String(String::from("a")),
        SemanticValue::String(String::from("a"))
    );
    assert_ne!(SemanticValue::Float(1.5f32.to_bits()), SemanticValue::Double(1.5f64.to_bits()));
}

#[test]
fn accessors_select_variants() {
    assert_eq!(SemanticValue::Bool(true).as_bool(), Some(&true));
    assert_eq!(SemanticValue::Int(3).as_int(), Some(&3));
    assert_eq!(SemanticValue::Int(3).as_bool(), None);
    let bits = 2.5f32.to_bits();
    assert_eq!(SemanticValue::Float(bits).as_float(), Some(&bits));
    let dbits = 2.5f64.to_bits();
    assert_eq!(SemanticValue::Double(dbits).as_double(), Some(&dbits));
    let s = SemanticValue::String(String::from("hey"));
    assert_eq!(s.as_string(), Some(&String::from("hey")));
    assert_eq!(s.as_int(), None);
}

#[test]
fn value_round_trip_all_variants() {
    let values = vec![
        SemanticValue::Bool(true),
        SemanticValue::Bool(false),
        SemanticValue::Int(-42),
        SemanticValue::Int(0),
        SemanticValue::Int(i32::MAX),
        SemanticValue::Int(i32::MIN),
        SemanticValue::Float(3.25f32.to_bits()),
        SemanticValue::Float((-0.5f32).to_bits()),
        SemanticValue::Double(6.75f64.to_bits()),
        SemanticValue::String(String::from("how_good")),
        SemanticValue::String(String::new()),
    ];
    for v in values {
        let encoded = v.encode();
        let decoded = decode_value(&encoded).expect("a value the library encoded must decode");
        assert_eq!(decoded, v);
    }
}

#[test]
fn encode_uses_native_tags() {
    assert_eq!(SemanticValue::Bool(true).encode().tag, TAG_BOOL);
    assert_eq!(SemanticValue::Bool(true).encode().payload, 0xffff);
    assert_eq!(SemanticValue::Bool(false).encode().payload, 0);
    assert_eq!(SemanticValue::Int(1).encode().tag, TAG_INT);
    assert_eq!(SemanticValue::Float(0).encode().tag, TAG_FLOAT);
    assert_eq!(SemanticValue::Double(0).encode().tag, TAG_DOUBLE);
    let s = SemanticValue::String(String::from("x")).encode();
    assert_eq!(s.tag, TAG_EMPTY);
    assert_eq!(s.text.as_deref(), Some("x"));
}

#[test]
fn decode_rejects_unknown_tag() {
    let mut d = SemanticValue::Int(1).encode();
    d.tag = 99;
    assert_eq!(decode_value(&d), Err(99));
}

#[test]
fn decode_prefers_string_over_union() {
    let mut d = SemanticValue::Int(7).encode();
    d.text = Some(String::from("seven"));
    assert_eq!(decode_value(&d), Ok(SemanticValue::String(String::from("seven"))));
}

#[test]
fn tree_equality_is_recursive() {
    let a = SemanticTree {
        value: SemanticValue::Int(1),
        children: vec![SemanticTree::leaf(SemanticValue::Bool(true))],
    };
    let b = SemanticTree {
        value: SemanticValue::Int(1),
        children: vec![SemanticTree::leaf(SemanticValue::Bool(true))],
    };
    let c = SemanticTree {
        value: SemanticValue::Int(1),
        children: vec![SemanticTree::leaf(SemanticValue::Bool(false))],
    };
    assert_eq!(a, b);
    assert_ne!(a, c);
    assert_ne!(a, SemanticTree::leaf(SemanticValue::Int(1)));
}

#[test]
fn cross_type_comparison_is_symmetric() {
    assert!(4 == SemanticValue::Int(4));
    assert!(!(5 == SemanticValue::Int(4)));
    assert!(true == SemanticValue::Bool(true));
    assert!(!(true == SemanticValue::Int(1)));
}
