use actor_bundler::abi::encode_manifest;
use actor_bundler::abi::Constructor;
use actor_bundler::abi::DispatchTable;
use actor_bundler::abi::MethodDescriptor;
use ciborium::value::Value;

fn sample_table() -> DispatchTable {
    DispatchTable {
        constructor: Some(Constructor()),
        setup: None,
        methods: vec![MethodDescriptor { name: b"Foo".to_vec(), number: 0x12345678 }],
    }
}

fn push_short_text(out: &mut Vec<u8>, s: &str) {
    assert!(s.len() < 24);
    out.push(0x60 + s.len() as u8);
    out.extend_from_slice(s.as_bytes());
}

#[test]
fn manifest_bytes_are_exactly_the_canonical_encoding() {
    let encoded = encode_manifest(&sample_table());
    let mut expected: Vec<u8> = Vec::new();
    expected.push(0xa3);
    push_short_text(&mut expected, "constructor");
    expected.push(0xa2);
    push_short_text(&mut expected, "name");
    push_short_text(&mut expected, "Constructor");
    push_short_text(&mut expected, "number");
    expected.push(0x01);
    push_short_text(&mut expected, "setup");
    expected.push(0xf6);
    push_short_text(&mut expected, "methods");
    expected.push(0x81);
    expected.push(0xa2);
    push_short_text(&mut expected, "name");
    push_short_text(&mut expected, "Foo");
    push_short_text(&mut expected, "number");
    expected.push(0x1a);
    expected.extend_from_slice(&[0x12, 0x34, 0x56, 0x78]);
    assert_eq!(encoded, expected);
}

#[test]
fn manifest_is_wellformed_cbor() {
    let encoded = encode_manifest(&sample_table());
    let value: Value = ciborium::de::from_reader(&encoded[..]).unwrap();
    let entries = match value {
        Value::Map(entries) => entries,
        other => panic!("expected a map, got {other:?}"),
    };
    assert_eq!(entries.len(), 3);
    assert_eq!(entries[0].0, Value::Text(String::from("constructor")));
    assert_eq!(entries[1].0, Value::Text(String::from("setup")));
    assert_eq!(entries[1].1, Value::Null);
    assert_eq!(entries[2].0, Value::Text(String::from("methods")));
    let methods = match &entries[2].1 {
        Value::Array(methods) => methods,
        other => panic!("expected an array, got {other:?}"),
    };
    assert_eq!(methods.len(), 1);
    let method = match &methods[0] {
        Value::Map(fields) => fields,
        other => panic!("expected a map, got {other:?}"),
    };
    assert_eq!(method[0].0, Value::Text(String::from("name")));
    assert_eq!(method[0].1, Value::Text(String::from("Foo")));
    assert_eq!(method[1].0, Value::Text(String::from("number")));
    assert_eq!(i128::from(match method[1].1 {
        Value::Integer(n) => n,
        ref other => panic!("expected an integer, got {other:?}"),
    }), 0x12345678);
}

#[test]
fn reencoding_an_identical_table_is_byte_identical() {
    let first = encode_manifest(&sample_table());
    let again = encode_manifest(&sample_table());
    assert_eq!(first, again);
}

#[test]
fn empty_table_still_has_a_manifest() {
    let table = DispatchTable { constructor: None, setup: None, methods: vec![] };
    let encoded = encode_manifest(&table);
    let mut expected: Vec<u8> = Vec::new();
    expected.push(0xa3);
    push_short_text(&mut expected, "constructor");
    expected.push(0xf6);
    push_short_text(&mut expected, "setup");
    expected.push(0xf6);
    push_short_text(&mut expected, "methods");
    expected.push(0x80);
    assert_eq!(encoded, expected);
}

#[test]
fn constructor_descriptor_is_the_reserved_role() {
    let d = Constructor();
    assert_eq!(d.name, b"Constructor".to_vec());
    assert_eq!(d.number, 1);
}

#[test]
fn integer_and_text_heads_use_shortest_forms() {
    let long_name = "M".to_string() + &"x".repeat(30);
    let table = DispatchTable {
        constructor: None,
        setup: None,
        methods: vec![
            MethodDescriptor { name: long_name.clone().into_bytes(), number: 1000 },
            MethodDescriptor { name: b"Big".to_vec(), number: 0x1122334455667788 },
        ],
    };
    let encoded = encode_manifest(&table);
    let mut expected: Vec<u8> = Vec::new();
    expected.push(0xa3);
    push_short_text(&mut expected, "constructor");
    expected.push(0xf6);
    push_short_text(&mut expected, "setup");
    expected.push(0xf6);
    push_short_text(&mut expected, "methods");
    expected.push(0x82);
    expected.push(0xa2);
    push_short_text(&mut expected, "name");
    expected.push(0x78);
    expected.push(31);
    expected.extend_from_slice(long_name.as_bytes());
    push_short_text(&mut expected, "number");
    expected.push(0x19);
    expected.extend_from_slice(&[0x03, 0xe8]);
    expected.push(0xa2);
    push_short_text(&mut expected, "name");
    push_short_text(&mut expected, "Big");
    push_short_text(&mut expected, "number");
    expected.push(0x1b);
    expected.extend_from_slice(&[0x11, 0x22, 0x33, 0x44, 0x55, 0x66, 0x77, 0x88]);
    assert_eq!(encoded, expected);
}
