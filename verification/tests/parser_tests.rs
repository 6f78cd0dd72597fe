//! Tests of the class-file parser: the minimal end-to-end parse, the
//! placeholder rule for wide constants, tag validation, attribute dispatch,
//! and the error taxonomy.

use rust_jvm::model::{ConstantPoolInfo, Tag};
use rust_jvm::attributes::AttributeInfo;
use rust_jvm::parser::{parse_class_file, Error};

fn push_u16(out: &mut Vec<u8>, v: u16) {
    out.push((v >> 8) as u8);
    out.push(v as u8);
}

fn push_u32(out: &mut Vec<u8>, v: u32) {
    out.push((v >> 24) as u8);
    out.push((v >> 16) as u8);
    out.push((v >> 8) as u8);
    out.push(v as u8);
}

fn push_utf8(out: &mut Vec<u8>, s: &str) {
    out.push(1);
    push_u16(out, s.len() as u16);
    out.extend_from_slice(s.as_bytes());
}

/// A minimal valid class file: magic, versions, a pool of one `Utf8` and
/// one `Class` entry, no superclass, no interfaces, no fields, one trivial
/// method without attributes, no class attributes.
fn minimal_class_bytes() -> Vec<u8> {
    let mut out = Vec::new();
    push_u32(&mut out, 0xcafebabe);
    push_u16(&mut out, 0); // minor
    push_u16(&mut out, 52); // major
    push_u16(&mut out, 3); // constant_pool_count: two entries
    push_utf8(&mut out, "A"); // 1: Utf8 "A"
    out.push(7); // 2: Class { name_index: 1 }
    push_u16(&mut out, 1);
    push_u16(&mut out, 0x0021); // access_flags
    push_u16(&mut out, 2); // this_class
    push_u16(&mut out, 0); // super_class: the root class
    push_u16(&mut out, 0); // interfaces_count
    push_u16(&mut out, 0); // fields_count
    push_u16(&mut out, 1); // methods_count
    push_u16(&mut out, 0); // method access_flags
    push_u16(&mut out, 1); // method name_index
    push_u16(&mut out, 1); // method descriptor_index
    push_u16(&mut out, 0); // method attributes_count
    push_u16(&mut out, 0); // class attributes_count
    out
}

#[test]
fn minimal_class_file_parses_end_to_end() {
    let bytes = minimal_class_bytes();
    let cf = parse_class_file(&bytes).unwrap();
    assert_eq!(cf.magic, 0xcafebabe);
    assert_eq!(cf.minor_version, 0);
    assert_eq!(cf.major_version, 52);
    assert_eq!(cf.constant_pool_count, 3);
    // pool length is constant_pool_count - 1, placeholders included
    assert_eq!(cf.constant_pool.len(), (cf.constant_pool_count - 1) as usize);
    assert_eq!(cf.this_class, 2);
    assert_eq!(cf.super_class, 0);
    // this_class tag-resolves to Class
    let entry = &cf.constant_pool[(cf.this_class - 1) as usize];
    assert!(matches!(entry.tag(), Tag::Class));
    assert_eq!(cf.methods.len(), 1);
    assert_eq!(cf.fields.len(), 0);
}

#[test]
fn magic_mismatch_is_reported() {
    let mut bytes = minimal_class_bytes();
    bytes[0] = 0xde;
    match parse_class_file(&bytes) {
        Err(Error::Within { context, cause }) => {
            assert!(matches!(*context, Error::ClassFile));
            assert!(matches!(*cause, Error::Magic));
        },
        other => panic!("unexpected: {:?}", other),
    }
}

#[test]
fn truncated_file_is_incomplete() {
    let bytes = minimal_class_bytes();
    let cut = &bytes[..bytes.len() - 1].to_vec();
    assert!(matches!(parse_class_file(cut), Err(Error::Incomplete { .. })));
}

/// A pool with a `Long` at index 1 (so index 2 is the placeholder), a
/// `Utf8` at 3 and a `Class` at 4; `this_class` picks the given index.
fn class_bytes_with_long(this_class: u16) -> Vec<u8> {
    let mut out = Vec::new();
    push_u32(&mut out, 0xcafebabe);
    push_u16(&mut out, 0);
    push_u16(&mut out, 52);
    push_u16(&mut out, 5); // four pool slots
    out.push(5); // 1: Long (slot 2 becomes the placeholder)
    push_u32(&mut out, 0x12345678);
    push_u32(&mut out, 0x9abcdef0);
    push_utf8(&mut out, "A"); // 3: Utf8 "A"
    out.push(7); // 4: Class { name_index: 3 }
    push_u16(&mut out, 3);
    push_u16(&mut out, 0);
    push_u16(&mut out, this_class);
    push_u16(&mut out, 0);
    push_u16(&mut out, 0);
    push_u16(&mut out, 0);
    push_u16(&mut out, 0);
    push_u16(&mut out, 0);
    out
}

#[test]
fn wide_entry_inserts_placeholder_slot() {
    let bytes = class_bytes_with_long(4);
    let cf = parse_class_file(&bytes).unwrap();
    assert_eq!(cf.constant_pool.len(), 4);
    assert!(matches!(cf.constant_pool[0], ConstantPoolInfo::Long { .. }));
    assert!(matches!(cf.constant_pool[1], ConstantPoolInfo::Unusable));
}

#[test]
fn referencing_the_placeholder_slot_fails() {
    // this_class = 2 points at the slot after the Long: the placeholder
    let bytes = class_bytes_with_long(2);
    match parse_class_file(&bytes) {
        Err(Error::Within { context, cause }) => {
            assert!(matches!(*context, Error::ClassFile));
            match *cause {
                Error::UnexpectedConstantPoolType { index, expected, actual } => {
                    assert_eq!(index, 2);
                    assert!(matches!(expected, Tag::Class));
                    assert!(matches!(actual, Tag::Unusable));
                },
                ref other => panic!("unexpected cause: {:?}", other),
            }
        },
        other => panic!("unexpected: {:?}", other),
    }
}

#[test]
fn this_class_of_wrong_tag_fails_with_both_tags_named() {
    // this_class = 1 points at the Utf8 entry, not a Class entry
    let mut bytes = minimal_class_bytes();
    // patch this_class from 2 to 1
    let pos = 4 + 2 + 2 + 2 + (1 + 2 + 1) + (1 + 2) + 2;
    bytes[pos] = 0;
    bytes[pos + 1] = 1;
    match parse_class_file(&bytes) {
        Err(Error::Within { context, cause }) => {
            assert!(matches!(*context, Error::ClassFile));
            match *cause {
                Error::UnexpectedConstantPoolType { index, expected, actual } => {
                    assert_eq!(index, 1);
                    assert!(matches!(expected, Tag::Class));
                    assert!(matches!(actual, Tag::Utf8));
                },
                ref other => panic!("unexpected cause: {:?}", other),
            }
        },
        other => panic!("unexpected: {:?}", other),
    }
}

#[test]
fn out_of_bounds_index_fails() {
    let mut bytes = minimal_class_bytes();
    let pos = 4 + 2 + 2 + 2 + (1 + 2 + 1) + (1 + 2) + 2;
    bytes[pos] = 0;
    bytes[pos + 1] = 9;
    match parse_class_file(&bytes) {
        Err(Error::Within { cause, .. }) => {
            assert!(matches!(*cause, Error::ConstantPoolIndexOutOfBounds { index: 9 }));
        },
        other => panic!("unexpected: {:?}", other),
    }
}

#[test]
fn unknown_pool_tag_fails() {
    let mut out = Vec::new();
    push_u32(&mut out, 0xcafebabe);
    push_u16(&mut out, 0);
    push_u16(&mut out, 52);
    push_u16(&mut out, 2);
    out.push(99); // no constant kind has tag 99
    match parse_class_file(&out) {
        Err(Error::Within { cause, .. }) => match *cause {
            Error::Within { context, cause } => {
                assert!(matches!(*context, Error::ConstantPool { constant_pool_count: 2 }));
                match *cause {
                    Error::Within { context, cause } => {
                        assert!(matches!(*context, Error::ConstantPoolEntry { index: 0 }));
                        match *cause {
                            Error::Within { cause, .. } => {
                                assert!(matches!(
                                    *cause,
                                    Error::UnknownConstantPoolTag { tag: 99 }
                                ));
                            },
                            ref other => panic!("unexpected: {:?}", other),
                        }
                    },
                    ref other => panic!("unexpected: {:?}", other),
                }
            },
            ref other => panic!("unexpected: {:?}", other),
        },
        other => panic!("unexpected: {:?}", other),
    }
}

#[test]
fn illegal_byte_in_utf8_constant_fails() {
    let mut out = Vec::new();
    push_u32(&mut out, 0xcafebabe);
    push_u16(&mut out, 0);
    push_u16(&mut out, 52);
    push_u16(&mut out, 2);
    out.push(1); // Utf8, length 1, holding an illegal byte
    push_u16(&mut out, 1);
    out.push(0xf0);
    match parse_class_file(&out) {
        Err(e) => {
            let shown = format!("{:?}", e);
            assert!(shown.contains("IllegalModifiedUtf8"));
            assert!(shown.contains("240"));
        },
        other => panic!("unexpected: {:?}", other),
    }
}

/// A class whose single method carries a `Code` attribute, and whose class
/// attribute list carries an unrecognized attribute.
fn class_bytes_with_code() -> Vec<u8> {
    let mut out = Vec::new();
    push_u32(&mut out, 0xcafebabe);
    push_u16(&mut out, 0);
    push_u16(&mut out, 52);
    push_u16(&mut out, 5); // four pool entries
    push_utf8(&mut out, "A"); // 1
    out.push(7); // 2: Class { name_index: 1 }
    push_u16(&mut out, 1);
    push_utf8(&mut out, "Code"); // 3
    push_utf8(&mut out, "Vendor"); // 4
    push_u16(&mut out, 0x0021);
    push_u16(&mut out, 2); // this_class
    push_u16(&mut out, 0);
    push_u16(&mut out, 0); // interfaces
    push_u16(&mut out, 0); // fields
    push_u16(&mut out, 1); // methods
    push_u16(&mut out, 0); // access
    push_u16(&mut out, 1); // name
    push_u16(&mut out, 1); // descriptor
    push_u16(&mut out, 1); // one attribute
    push_u16(&mut out, 3); // name: "Code"
    push_u32(&mut out, 2 + 2 + 4 + 3 + 2 + 2); // declared length
    push_u16(&mut out, 2); // max_stack
    push_u16(&mut out, 1); // max_locals
    push_u32(&mut out, 3); // code_length
    out.push(0x03); // iconst_0
    out.push(0x3b); // istore_0
    out.push(0xb1); // return
    push_u16(&mut out, 0); // exception_table_length
    push_u16(&mut out, 0); // code attributes
    push_u16(&mut out, 1); // one class attribute
    push_u16(&mut out, 4); // name: "Vendor", unrecognized
    push_u32(&mut out, 3);
    out.push(0xaa);
    out.push(0xbb);
    out.push(0xcc);
    out
}

#[test]
fn code_attribute_parses_and_unknown_names_pass_through() {
    let bytes = class_bytes_with_code();
    let cf = parse_class_file(&bytes).unwrap();
    assert_eq!(cf.methods.len(), 1);
    match &cf.methods[0].attributes[0] {
        AttributeInfo::Code { max_stack, max_locals, code, exception_table, attributes } => {
            assert_eq!(*max_stack, 2);
            assert_eq!(*max_locals, 1);
            assert_eq!(code, &vec![0x03, 0x3b, 0xb1]);
            assert_eq!(exception_table.len(), 0);
            assert_eq!(attributes.len(), 0);
        },
        other => panic!("unexpected: {:?}", other),
    }
    match &cf.attributes[0] {
        AttributeInfo::Unknown { attribute_name_index, info } => {
            assert_eq!(*attribute_name_index, 4);
            assert_eq!(info, &vec![0xaa, 0xbb, 0xcc]);
        },
        other => panic!("unexpected: {:?}", other),
    }
}

#[test]
fn method_ref_at_wrong_tag_fails_at_parse() {
    // entry 2 is a MethodRef whose class_index names the Utf8 entry 1:
    // the pool's own cross-references are validated before anything later
    let mut out = Vec::new();
    push_u32(&mut out, 0xcafebabe);
    push_u16(&mut out, 0);
    push_u16(&mut out, 52);
    push_u16(&mut out, 5); // four pool entries
    push_utf8(&mut out, "A"); // 1
    out.push(10); // 2: MethodRef { class_index: 1, name_and_type_index: 3 }
    push_u16(&mut out, 1);
    push_u16(&mut out, 3);
    out.push(12); // 3: NameAndType { name_index: 1, descriptor_index: 1 }
    push_u16(&mut out, 1);
    push_u16(&mut out, 1);
    out.push(7); // 4: Class { name_index: 1 }
    push_u16(&mut out, 1);
    push_u16(&mut out, 0x21);
    push_u16(&mut out, 4); // this_class
    push_u16(&mut out, 0);
    push_u16(&mut out, 0);
    push_u16(&mut out, 0);
    push_u16(&mut out, 0);
    push_u16(&mut out, 0);
    match parse_class_file(&out) {
        Err(Error::Within { context, cause }) => {
            assert!(matches!(*context, Error::ClassFile));
            match *cause {
                Error::Within { context, cause } => {
                    assert!(matches!(
                        *context,
                        Error::ConstantPool { constant_pool_count: 5 }
                    ));
                    match *cause {
                        Error::Within { context, cause } => {
                            assert!(matches!(*context, Error::ConstantPoolEntry { index: 1 }));
                            match *cause {
                                Error::UnexpectedConstantPoolType { index, expected, actual } => {
                                    assert_eq!(index, 1);
                                    assert!(matches!(expected, Tag::Class));
                                    assert!(matches!(actual, Tag::Utf8));
                                },
                                ref other => panic!("unexpected: {:?}", other),
                            }
                        },
                        ref other => panic!("unexpected: {:?}", other),
                    }
                },
                ref other => panic!("unexpected: {:?}", other),
            }
        },
        other => panic!("unexpected: {:?}", other),
    }
}

#[test]
fn well_referenced_pool_passes_validation() {
    // a pool exercising every reference-carrying entry kind, all well-tagged
    let mut out = Vec::new();
    push_u32(&mut out, 0xcafebabe);
    push_u16(&mut out, 0);
    push_u16(&mut out, 52);
    push_u16(&mut out, 10); // nine pool entries
    push_utf8(&mut out, "A"); // 1
    out.push(7); // 2: Class { 1 }
    push_u16(&mut out, 1);
    out.push(12); // 3: NameAndType { 1, 1 }
    push_u16(&mut out, 1);
    push_u16(&mut out, 1);
    out.push(10); // 4: MethodRef { 2, 3 }
    push_u16(&mut out, 2);
    push_u16(&mut out, 3);
    out.push(9); // 5: FieldRef { 2, 3 }
    push_u16(&mut out, 2);
    push_u16(&mut out, 3);
    out.push(8); // 6: String { 1 }
    push_u16(&mut out, 1);
    out.push(15); // 7: MethodHandle, invoke-virtual of the MethodRef
    out.push(5);
    push_u16(&mut out, 4);
    out.push(16); // 8: MethodType { 1 }
    push_u16(&mut out, 1);
    out.push(18); // 9: InvokeDynamic { bootstrap 0, NameAndType 3 }
    push_u16(&mut out, 0);
    push_u16(&mut out, 3);
    push_u16(&mut out, 0x21);
    push_u16(&mut out, 2); // this_class
    push_u16(&mut out, 0);
    push_u16(&mut out, 0);
    push_u16(&mut out, 0);
    push_u16(&mut out, 0);
    push_u16(&mut out, 0);
    let cf = parse_class_file(&out).unwrap();
    assert_eq!(cf.constant_pool.len(), 9);
}
