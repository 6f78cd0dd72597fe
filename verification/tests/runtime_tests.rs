//! Tests of the runtime constant-pool builder: symbolic references built
//! through the pool's cross-reference chains, eagerly resolved literals,
//! deferred strings, and the chain-validation errors.

use rust_jvm::model::{ConstantPoolInfo, Tag};
use rust_jvm::runtime::{
    PoolError, RuntimeConstantPool, RuntimeConstantPoolEntry, Value,
};
use rust_jvm::sig;

fn utf8(s: &str) -> ConstantPoolInfo {
    ConstantPoolInfo::Utf8 { bytes: s.as_bytes().to_vec() }
}

#[test]
fn class_ref_is_built_through_the_name_chain() {
    let pool = vec![
        utf8("java/lang/Object"), // 1
        ConstantPoolInfo::Class { name_index: 1 }, // 2
    ];
    let rcp = RuntimeConstantPool::new(&pool).unwrap();
    match rcp.get(2) {
        Some(RuntimeConstantPoolEntry::ClassRef(c)) => match &c.sig {
            sig::Class::Scalar(name) => assert_eq!(name, "java/lang/Object"),
            other => panic!("unexpected: {:?}", other),
        },
        other => panic!("unexpected: {:?}", other),
    }
}

#[test]
fn field_ref_carries_name_and_parsed_descriptor() {
    let pool = vec![
        utf8("A"), // 1
        ConstantPoolInfo::Class { name_index: 1 }, // 2
        utf8("count"), // 3
        utf8("I"), // 4
        ConstantPoolInfo::NameAndType { name_index: 3, descriptor_index: 4 }, // 5
        ConstantPoolInfo::FieldRef { class_index: 2, name_and_type_index: 5 }, // 6
    ];
    let rcp = RuntimeConstantPool::new(&pool).unwrap();
    match rcp.get(6) {
        Some(RuntimeConstantPoolEntry::FieldRef(f)) => {
            assert_eq!(f.sig.name, "count");
            assert!(matches!(f.sig.ty, sig::Type::Int));
            assert!(matches!(&f.class.sig, sig::Class::Scalar(n) if n == "A"));
        },
        other => panic!("unexpected: {:?}", other),
    }
}

#[test]
fn method_ref_carries_signature() {
    let pool = vec![
        utf8("A"), // 1
        ConstantPoolInfo::Class { name_index: 1 }, // 2
        utf8("run"), // 3
        utf8("(I)V"), // 4
        ConstantPoolInfo::NameAndType { name_index: 3, descriptor_index: 4 }, // 5
        ConstantPoolInfo::MethodRef { class_index: 2, name_and_type_index: 5 }, // 6
    ];
    let rcp = RuntimeConstantPool::new(&pool).unwrap();
    match rcp.get(6) {
        Some(RuntimeConstantPoolEntry::MethodRef(m)) => {
            assert_eq!(m.sig.name, "run");
            assert_eq!(m.sig.params.len(), 1);
            assert!(m.sig.return_ty.is_none());
        },
        other => panic!("unexpected: {:?}", other),
    }
}

#[test]
fn numeric_literals_resolve_eagerly() {
    let pool = vec![
        ConstantPoolInfo::Integer { bytes: 0xfffffffe }, // 1: -2 as an int
        ConstantPoolInfo::Long { high_bytes: 0x00000001, low_bytes: 0x00000002 }, // 2 (slot 3 unusable)
        ConstantPoolInfo::Unusable, // 3
        ConstantPoolInfo::Float { bytes: 0x3f800000 }, // 4
        ConstantPoolInfo::Double { high_bytes: 0x3ff00000, low_bytes: 0 }, // 5 (slot 6 unusable)
        ConstantPoolInfo::Unusable, // 6
    ];
    let rcp = RuntimeConstantPool::new(&pool).unwrap();
    assert!(matches!(
        rcp.get(1),
        Some(RuntimeConstantPoolEntry::ResolvedLiteral(Value::Int(-2)))
    ));
    // the two 32-bit halves combine into one 64-bit pattern
    assert!(matches!(
        rcp.get(2),
        Some(RuntimeConstantPoolEntry::ResolvedLiteral(Value::Long(0x0000000100000002)))
    ));
    assert!(matches!(
        rcp.get(4),
        Some(RuntimeConstantPoolEntry::ResolvedLiteral(Value::Float { bits: 0x3f800000 }))
    ));
    assert!(matches!(
        rcp.get(5),
        Some(RuntimeConstantPoolEntry::ResolvedLiteral(Value::Double { bits: 0x3ff0000000000000 }))
    ));
    // the placeholder slot converts to nothing
    assert!(rcp.get(3).is_none());
    assert!(rcp.get(6).is_none());
}

#[test]
fn string_constants_stay_deferred() {
    let pool = vec![
        utf8("hello"), // 1
        ConstantPoolInfo::String { string_index: 1 }, // 2
    ];
    let rcp = RuntimeConstantPool::new(&pool).unwrap();
    assert!(matches!(
        rcp.get(2),
        Some(RuntimeConstantPoolEntry::UnresolvedString(1))
    ));
    assert!(matches!(
        rcp.get(1),
        Some(RuntimeConstantPoolEntry::StringValue(_))
    ));
    assert_eq!(rcp.lookup_raw_string(1).unwrap(), "hello");
}

#[test]
fn method_ref_through_wrong_tag_fails_with_both_tags() {
    let pool = vec![
        utf8("A"), // 1
        utf8("run"), // 2
        utf8("()V"), // 3
        ConstantPoolInfo::NameAndType { name_index: 2, descriptor_index: 3 }, // 4
        // class_index points at a Utf8 entry, not a Class entry
        ConstantPoolInfo::MethodRef { class_index: 1, name_and_type_index: 4 }, // 5
    ];
    match RuntimeConstantPool::new(&pool) {
        Err(PoolError::WrongTag { index, expected, actual }) => {
            assert_eq!(index, 1);
            assert!(matches!(expected, Tag::Class));
            assert!(matches!(actual, Tag::Utf8));
        },
        other => panic!("unexpected: {:?}", other),
    }
}

#[test]
fn dangling_chain_is_out_of_bounds() {
    let pool = vec![ConstantPoolInfo::Class { name_index: 9 }];
    assert!(matches!(
        RuntimeConstantPool::new(&pool),
        Err(PoolError::OutOfBounds { index: 9 })
    ));
}

#[test]
fn bad_descriptor_in_field_ref_fails() {
    let pool = vec![
        utf8("A"), // 1
        ConstantPoolInfo::Class { name_index: 1 }, // 2
        utf8("f"), // 3
        utf8("Q"), // 4: no such type letter
        ConstantPoolInfo::NameAndType { name_index: 3, descriptor_index: 4 }, // 5
        ConstantPoolInfo::FieldRef { class_index: 2, name_and_type_index: 5 }, // 6
    ];
    assert!(matches!(
        RuntimeConstantPool::new(&pool),
        Err(PoolError::BadDescriptor { index: 5 })
    ));
}

#[test]
fn lookup_raw_string_rejects_non_strings() {
    let pool = vec![ConstantPoolInfo::Integer { bytes: 7 }];
    let rcp = RuntimeConstantPool::new(&pool).unwrap();
    assert!(matches!(
        rcp.lookup_raw_string(1),
        Err(PoolError::NotStringValue { index: 1 })
    ));
    assert!(matches!(
        rcp.lookup_raw_string(0),
        Err(PoolError::NotStringValue { index: 0 })
    ));
}

#[test]
fn non_literal_entries_cannot_be_resolved() {
    let pool = vec![utf8("A")];
    let rcp = RuntimeConstantPool::new(&pool).unwrap();
    let mut loader = rust_jvm::loader::ClassLoader::new();
    let source: Vec<(String, Vec<u8>)> = vec![];
    assert!(matches!(
        rcp.resolve_literal(1, &mut loader, &source),
        Err(rust_jvm::loader::Error::RuntimePool(PoolError::NotLiteral { index: 1 }))
    ));
}

fn push_u16(out: &mut Vec<u8>, v: u16) {
    out.push((v >> 8) as u8);
    out.push(v as u8);
}

fn push_u32(out: &mut Vec<u8>, v: u32) {
    out.push((v >> 24) as u8);
    out.push((v >> 16) as u8);
    out.push((v >> 8) as u8);
    out.push(v as u8);
}

fn push_utf8(out: &mut Vec<u8>, s: &str) {
    out.push(1);
    push_u16(out, s.len() as u16);
    out.extend_from_slice(s.as_bytes());
}

/// A minimal root-class file declaring `name`.
fn root_class_bytes(name: &str) -> Vec<u8> {
    let mut out = Vec::new();
    push_u32(&mut out, 0xcafebabe);
    push_u16(&mut out, 0);
    push_u16(&mut out, 52);
    push_u16(&mut out, 3);
    push_utf8(&mut out, name); // 1
    out.push(7); // 2: Class { name_index: 1 }
    push_u16(&mut out, 1);
    push_u16(&mut out, 0x21);
    push_u16(&mut out, 2);
    push_u16(&mut out, 0);
    push_u16(&mut out, 0);
    push_u16(&mut out, 0);
    push_u16(&mut out, 0);
    push_u16(&mut out, 0);
    out
}

#[test]
fn string_literal_backed_by_non_string_fails_exactly() {
    // the deferred string points at an Integer slot: once the char-array
    // class resolves, the backing slot's kind is reported
    let pool = vec![
        ConstantPoolInfo::Integer { bytes: 1 }, // 1
        ConstantPoolInfo::String { string_index: 1 }, // 2
    ];
    let rcp = RuntimeConstantPool::new(&pool).unwrap();
    let mut loader = rust_jvm::loader::ClassLoader::new();
    let source = vec![(String::from("java/lang/Object"), root_class_bytes("java/lang/Object"))];
    assert!(matches!(
        rcp.resolve_literal(2, &mut loader, &source),
        Err(rust_jvm::loader::Error::RuntimePool(PoolError::NotStringValue { index: 1 }))
    ));
}

#[test]
fn string_literal_with_undecodable_text_fails_exactly() {
    // the backing bytes end inside a two-byte form
    let pool = vec![
        ConstantPoolInfo::Utf8 { bytes: vec![0xc3] }, // 1
        ConstantPoolInfo::String { string_index: 1 }, // 2
    ];
    let rcp = RuntimeConstantPool::new(&pool).unwrap();
    let mut loader = rust_jvm::loader::ClassLoader::new();
    let source = vec![(String::from("java/lang/Object"), root_class_bytes("java/lang/Object"))];
    match rcp.resolve_literal(2, &mut loader, &source) {
        Err(rust_jvm::loader::Error::RuntimePool(PoolError::BadString { index, cause })) => {
            assert_eq!(index, 1);
            assert_eq!(
                cause,
                rust_jvm::mutf8::DecodeError::Truncated { index: 0, expected: 2 }
            );
        },
        other => panic!("unexpected: {:?}", other),
    }
}

#[test]
fn string_literal_fails_when_its_classes_cannot_resolve() {
    // an empty byte source: the char-array class's root cannot be found,
    // and the loader's error comes through unchanged
    let pool = vec![
        ConstantPoolInfo::Utf8 { bytes: b"x".to_vec() }, // 1
        ConstantPoolInfo::String { string_index: 1 }, // 2
    ];
    let rcp = RuntimeConstantPool::new(&pool).unwrap();
    let mut loader = rust_jvm::loader::ClassLoader::new();
    let source: Vec<(String, Vec<u8>)> = vec![];
    assert!(matches!(
        rcp.resolve_literal(2, &mut loader, &source),
        Err(rust_jvm::loader::Error::ClassNotFound)
    ));
}
