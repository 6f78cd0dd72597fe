//! Tests of the class-resolution engine: idempotent caching, circularity
//! detection, superclass linking, array classes, and the resolution error
//! kinds.

use rust_jvm::loader::{ClassLoader, Error};
use rust_jvm::runtime::Value;
use rust_jvm::sig;

fn push_u16(out: &mut Vec<u8>, v: u16) {
    out.push((v >> 8) as u8);
    out.push(v as u8);
}

fn push_u32(out: &mut Vec<u8>, v: u32) {
    out.push((v >> 24) as u8);
    out.push((v >> 16) as u8);
    out.push((v >> 8) as u8);
    out.push(v as u8);
}

fn push_utf8(out: &mut Vec<u8>, s: &str) {
    out.push(1);
    push_u16(out, s.len() as u16);
    out.extend_from_slice(s.as_bytes());
}

/// A minimal class file declaring `name`, optionally extending
/// `super_name`, with the given access flags and major version.
fn class_bytes(name: &str, super_name: Option<&str>, access_flags: u16, major: u16) -> Vec<u8> {
    let mut out = Vec::new();
    push_u32(&mut out, 0xcafebabe);
    push_u16(&mut out, 0);
    push_u16(&mut out, major);
    match super_name {
        None => {
            push_u16(&mut out, 3);
            push_utf8(&mut out, name); // 1
            out.push(7); // 2: Class { name_index: 1 }
            push_u16(&mut out, 1);
            push_u16(&mut out, access_flags);
            push_u16(&mut out, 2); // this_class
            push_u16(&mut out, 0); // super_class: the root
        },
        Some(sn) => {
            push_u16(&mut out, 5);
            push_utf8(&mut out, name); // 1
            out.push(7); // 2: Class { name_index: 1 }
            push_u16(&mut out, 1);
            push_utf8(&mut out, sn); // 3
            out.push(7); // 4: Class { name_index: 3 }
            push_u16(&mut out, 3);
            push_u16(&mut out, access_flags);
            push_u16(&mut out, 2); // this_class
            push_u16(&mut out, 4); // super_class
        },
    }
    push_u16(&mut out, 0); // interfaces
    push_u16(&mut out, 0); // fields
    push_u16(&mut out, 0); // methods
    push_u16(&mut out, 0); // attributes
    out
}

fn scalar(name: &str) -> sig::Class {
    sig::Class::Scalar(name.to_string())
}

#[test]
fn loads_a_root_class() {
    let source = vec![(String::from("A"), class_bytes("A", None, 0x21, 52))];
    let mut loader = ClassLoader::new();
    let idx = loader.load_class(&scalar("A"), &source).unwrap();
    assert_eq!(loader.loaded_count(), 1);
    let c = loader.get_class(idx);
    assert!(matches!(&c.symref.sig, sig::Class::Scalar(n) if n == "A"));
    assert!(c.superclass.is_none());
}

#[test]
fn resolution_is_idempotent() {
    let source = vec![(String::from("A"), class_bytes("A", None, 0x21, 52))];
    let mut loader = ClassLoader::new();
    let first = loader.load_class(&scalar("A"), &source).unwrap();
    let second = loader.load_class(&scalar("A"), &source).unwrap();
    // the identical cached instance answers the second request
    assert_eq!(first, second);
    assert_eq!(loader.loaded_count(), 1);
}

#[test]
fn superclass_resolves_first_and_is_linked() {
    let source = vec![
        (String::from("A"), class_bytes("A", None, 0x21, 52)),
        (String::from("B"), class_bytes("B", Some("A"), 0x21, 52)),
    ];
    let mut loader = ClassLoader::new();
    let b = loader.load_class(&scalar("B"), &source).unwrap();
    assert_eq!(loader.loaded_count(), 2);
    let bc = loader.get_class(b);
    let sup = bc.superclass.unwrap();
    let sc = loader.get_class(sup);
    assert!(matches!(&sc.symref.sig, sig::Class::Scalar(n) if n == "A"));
}

#[test]
fn circular_superclasses_fail_with_circularity() {
    let source = vec![
        (String::from("A"), class_bytes("A", Some("B"), 0x21, 52)),
        (String::from("B"), class_bytes("B", Some("A"), 0x21, 52)),
    ];
    let mut loader = ClassLoader::new();
    assert!(matches!(
        loader.load_class(&scalar("A"), &source),
        Err(Error::ClassCircularity)
    ));
    // a failure is never cached: no partially-resolved class remains usable
    assert!(matches!(
        loader.load_class(&scalar("A"), &source),
        Err(Error::ClassCircularity)
    ));
}

#[test]
fn self_superclass_fails_with_circularity() {
    let source = vec![(String::from("A"), class_bytes("A", Some("A"), 0x21, 52))];
    let mut loader = ClassLoader::new();
    assert!(matches!(
        loader.load_class(&scalar("A"), &source),
        Err(Error::ClassCircularity)
    ));
}

#[test]
fn missing_class_is_not_found() {
    let source = vec![];
    let mut loader = ClassLoader::new();
    assert!(matches!(
        loader.load_class(&scalar("A"), &source),
        Err(Error::ClassNotFound)
    ));
}

#[test]
fn declared_name_must_match_the_request() {
    let source = vec![(String::from("A"), class_bytes("B", None, 0x21, 52))];
    let mut loader = ClassLoader::new();
    assert!(matches!(
        loader.load_class(&scalar("A"), &source),
        Err(Error::NoClassDefFound)
    ));
}

#[test]
fn unsupported_version_is_rejected() {
    let source = vec![(String::from("A"), class_bytes("A", None, 0x21, 99))];
    let mut loader = ClassLoader::new();
    assert!(matches!(
        loader.load_class(&scalar("A"), &source),
        Err(Error::UnsupportedVersion { major: 99, minor: 0 })
    ));
}

#[test]
fn malformed_representation_is_a_format_error() {
    let source = vec![(String::from("A"), vec![0xca, 0xfe])];
    let mut loader = ClassLoader::new();
    assert!(matches!(
        loader.load_class(&scalar("A"), &source),
        Err(Error::ClassFormat(_))
    ));
}

#[test]
fn superclass_that_is_an_interface_is_incompatible() {
    // 0x0200 marks an interface
    let source = vec![
        (String::from("I"), class_bytes("I", None, 0x0201, 52)),
        (String::from("B"), class_bytes("B", Some("I"), 0x21, 52)),
    ];
    let mut loader = ClassLoader::new();
    assert!(matches!(
        loader.load_class(&scalar("B"), &source),
        Err(Error::IncompatibleClassChange(_))
    ));
}

#[test]
fn array_class_links_to_the_root_class() {
    let source = vec![
        (
            String::from("java/lang/Object"),
            class_bytes("java/lang/Object", None, 0x21, 52),
        ),
    ];
    let mut loader = ClassLoader::new();
    let handle = sig::Class::Array(Box::new(sig::Type::Int));
    let idx = loader.load_class(&handle, &source).unwrap();
    let c = loader.get_class(idx);
    assert!(matches!(&c.symref.sig, sig::Class::Array(_)));
    let sup = loader.get_class(c.superclass.unwrap());
    assert!(matches!(&sup.symref.sig, sig::Class::Scalar(n) if n == "java/lang/Object"));
    // the array's only instance field is the fixed length descriptor
    assert_eq!(c.instance_fields.len(), 1);
    assert_eq!(c.instance_fields[0].name, "length");
    assert!(matches!(c.instance_fields[0].ty, sig::Type::Int));
}

#[test]
fn array_of_reference_resolves_its_element_class() {
    let source = vec![
        (
            String::from("java/lang/Object"),
            class_bytes("java/lang/Object", None, 0x21, 52),
        ),
        (String::from("A"), class_bytes("A", None, 0x21, 52)),
    ];
    let mut loader = ClassLoader::new();
    let handle = sig::Class::Array(Box::new(sig::Type::Reference(scalar("A"))));
    loader.load_class(&handle, &source).unwrap();
    // element class, root class and the array class itself
    assert_eq!(loader.loaded_count(), 3);
}

#[test]
fn failed_resolution_is_not_cached_and_can_be_retried() {
    let mut loader = ClassLoader::new();
    let empty: Vec<(String, Vec<u8>)> = vec![];
    assert!(matches!(
        loader.load_class(&scalar("A"), &empty),
        Err(Error::ClassNotFound)
    ));
    // after fixing the byte source the same handle resolves
    let fixed = vec![(String::from("A"), class_bytes("A", None, 0x21, 52))];
    assert!(loader.load_class(&scalar("A"), &fixed).is_ok());
}

/// A class with one static and one instance field and one method with code.
fn fielded_class_bytes() -> Vec<u8> {
    let mut out = Vec::new();
    push_u32(&mut out, 0xcafebabe);
    push_u16(&mut out, 0);
    push_u16(&mut out, 52);
    push_u16(&mut out, 8); // seven pool entries
    push_utf8(&mut out, "A"); // 1
    out.push(7); // 2: Class { name_index: 1 }
    push_u16(&mut out, 1);
    push_utf8(&mut out, "count"); // 3
    push_utf8(&mut out, "I"); // 4
    push_utf8(&mut out, "run"); // 5
    push_utf8(&mut out, "()V"); // 6
    push_utf8(&mut out, "Code"); // 7
    push_u16(&mut out, 0x21);
    push_u16(&mut out, 2); // this_class
    push_u16(&mut out, 0);
    push_u16(&mut out, 0); // interfaces
    push_u16(&mut out, 2); // two fields
    push_u16(&mut out, 0x0008); // static
    push_u16(&mut out, 3);
    push_u16(&mut out, 4);
    push_u16(&mut out, 0);
    push_u16(&mut out, 0x0000); // instance
    push_u16(&mut out, 3);
    push_u16(&mut out, 4);
    push_u16(&mut out, 0);
    push_u16(&mut out, 1); // one method
    push_u16(&mut out, 0);
    push_u16(&mut out, 5);
    push_u16(&mut out, 6);
    push_u16(&mut out, 1); // one attribute: Code
    push_u16(&mut out, 7);
    push_u32(&mut out, 2 + 2 + 4 + 1 + 2 + 2);
    push_u16(&mut out, 0); // max_stack
    push_u16(&mut out, 0); // max_locals
    push_u32(&mut out, 1);
    out.push(0xb1); // return
    push_u16(&mut out, 0);
    push_u16(&mut out, 0);
    push_u16(&mut out, 0); // class attributes
    out
}

#[test]
fn fields_and_methods_are_prepared() {
    let source = vec![(String::from("A"), fielded_class_bytes())];
    let mut loader = ClassLoader::new();
    let idx = loader.load_class(&scalar("A"), &source).unwrap();
    let c = loader.get_class(idx);
    // the static field starts at its default value
    assert_eq!(c.class_fields.len(), 1);
    assert_eq!(c.class_fields[0].0.name, "count");
    assert!(matches!(c.class_fields[0].1, Value::Int(0)));
    assert_eq!(c.instance_fields.len(), 1);
    assert_eq!(c.methods.len(), 1);
    assert_eq!(c.methods[0].0.name, "run");
    assert_eq!(c.methods[0].1.code, vec![0xb1]);
    // the method table answers signature lookups
    let handle = sig::Method::new("run", "()V").unwrap();
    assert!(c.find_method(&handle).is_some());
    let missing = sig::Method::new("walk", "()V").unwrap();
    assert!(c.find_method(&missing).is_none());
}

#[test]
fn literals_resolve_through_the_pool() {
    // a class whose pool carries an Integer and a String literal
    let mut out = Vec::new();
    push_u32(&mut out, 0xcafebabe);
    push_u16(&mut out, 0);
    push_u16(&mut out, 52);
    push_u16(&mut out, 6); // five pool entries
    push_utf8(&mut out, "A"); // 1
    out.push(7); // 2: Class { name_index: 1 }
    push_u16(&mut out, 1);
    out.push(3); // 3: Integer 41
    push_u32(&mut out, 41);
    push_utf8(&mut out, "hi"); // 4
    out.push(8); // 5: String { string_index: 4 }
    push_u16(&mut out, 4);
    push_u16(&mut out, 0x21);
    push_u16(&mut out, 2);
    push_u16(&mut out, 0);
    push_u16(&mut out, 0);
    push_u16(&mut out, 0);
    push_u16(&mut out, 0);
    push_u16(&mut out, 0);
    let source = vec![
        (String::from("A"), out),
        (
            String::from("java/lang/Object"),
            class_bytes("java/lang/Object", None, 0x21, 52),
        ),
        (
            String::from("java/lang/String"),
            class_bytes("java/lang/String", Some("java/lang/Object"), 0x21, 52),
        ),
    ];
    let mut loader = ClassLoader::new();
    let idx = loader.load_class(&scalar("A"), &source).unwrap();
    // reading the pool out of the class by value for the literal calls
    let c = loader.get_class(idx);
    let int = c.constant_pool.resolve_literal(3, &mut ClassLoader::new(), &source).unwrap();
    assert!(matches!(int, Value::Int(41)));
    let mut fresh = ClassLoader::new();
    let s = c.constant_pool.resolve_literal(5, &mut fresh, &source).unwrap();
    match s {
        Value::StringLiteral(units) => assert_eq!(units, vec![0x68, 0x69]),
        other => panic!("unexpected: {:?}", other),
    }
    // resolving the string literal pulled in the char-array class, the
    // root class and the string class
    assert_eq!(fresh.loaded_count(), 3);
}
