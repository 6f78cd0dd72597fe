//! Tests of the attribute sub-format: stack-map frames with their numeric
//! tie-breaks, line-number tables, exception tables, declared-exceptions
//! lists, inner classes, and annotations.

use rust_jvm::attributes::{
    AttributeInfo, ElementValue, StackMapFrame, VerificationTypeInfo,
};
use rust_jvm::parser::{parse_class_file, Error};

fn push_u16(out: &mut Vec<u8>, v: u16) {
    out.push((v >> 8) as u8);
    out.push(v as u8);
}

fn push_u32(out: &mut Vec<u8>, v: u32) {
    out.push((v >> 24) as u8);
    out.push((v >> 16) as u8);
    out.push((v >> 8) as u8);
    out.push(v as u8);
}

fn push_utf8(out: &mut Vec<u8>, s: &str) {
    out.push(1);
    push_u16(out, s.len() as u16);
    out.extend_from_slice(s.as_bytes());
}

/// A class whose single class-level attribute has the given name index and
/// body; the pool holds "A", the class entry, and the attribute names.
fn class_with_attribute(names: &[&str], name_index: u16, body: &[u8]) -> Vec<u8> {
    let mut out = Vec::new();
    push_u32(&mut out, 0xcafebabe);
    push_u16(&mut out, 0);
    push_u16(&mut out, 52);
    push_u16(&mut out, 3 + names.len() as u16);
    push_utf8(&mut out, "A"); // 1
    out.push(7); // 2: Class { name_index: 1 }
    push_u16(&mut out, 1);
    for n in names {
        push_utf8(&mut out, n); // 3, 4, ...
    }
    push_u16(&mut out, 0x21);
    push_u16(&mut out, 2);
    push_u16(&mut out, 0);
    push_u16(&mut out, 0); // interfaces
    push_u16(&mut out, 0); // fields
    push_u16(&mut out, 0); // methods
    push_u16(&mut out, 1); // one class attribute
    push_u16(&mut out, name_index);
    push_u32(&mut out, body.len() as u32);
    out.extend_from_slice(body);
    out
}

#[test]
fn stack_map_frames_follow_the_tag_partition() {
    let mut body = Vec::new();
    push_u16(&mut body, 5); // five frames
    body.push(17); // 0-63: SameFrame, offset = the tag itself
    body.push(70); // 64-127: SameLocals1StackItemFrame, offset = tag - 64
    body.push(1); // with an Integer verification type
    body.push(249); // 248-250: ChopFrame, chopped = 251 - tag
    push_u16(&mut body, 7);
    body.push(253); // 252-254: AppendFrame, locals count = tag - 251
    push_u16(&mut body, 9);
    body.push(5); // Null
    body.push(6); // UninitializedThis
    body.push(255); // FullFrame with explicit counts
    push_u16(&mut body, 11);
    push_u16(&mut body, 1);
    body.push(0); // Top
    push_u16(&mut body, 1);
    body.push(4); // Long
    let bytes = class_with_attribute(&["StackMapTable"], 3, &body);
    let cf = parse_class_file(&bytes).unwrap();
    match &cf.attributes[0] {
        AttributeInfo::StackMapTable { entries } => {
            assert_eq!(entries.len(), 5);
            assert!(matches!(entries[0], StackMapFrame::SameFrame { offset_delta: 17 }));
            assert!(matches!(
                entries[1],
                StackMapFrame::SameLocals1StackItemFrame {
                    offset_delta: 6,
                    stack_item: VerificationTypeInfo::Integer,
                }
            ));
            assert!(matches!(
                entries[2],
                StackMapFrame::ChopFrame { offset_delta: 7, num_chopped: 2 }
            ));
            match &entries[3] {
                StackMapFrame::AppendFrame { offset_delta, locals } => {
                    assert_eq!(*offset_delta, 9);
                    assert_eq!(locals.len(), 2);
                    assert!(matches!(locals[0], VerificationTypeInfo::Null));
                    assert!(matches!(locals[1], VerificationTypeInfo::UninitializedThis));
                },
                other => panic!("unexpected: {:?}", other),
            }
            match &entries[4] {
                StackMapFrame::FullFrame { offset_delta, locals, stack } => {
                    assert_eq!(*offset_delta, 11);
                    assert_eq!(locals.len(), 1);
                    assert!(matches!(locals[0], VerificationTypeInfo::Top));
                    assert_eq!(stack.len(), 1);
                    assert!(matches!(stack[0], VerificationTypeInfo::Long));
                },
                other => panic!("unexpected: {:?}", other),
            }
        },
        other => panic!("unexpected: {:?}", other),
    }
}

#[test]
fn reserved_stack_map_tag_is_refused() {
    let mut body = Vec::new();
    push_u16(&mut body, 1);
    body.push(200); // 128-246 are reserved
    let bytes = class_with_attribute(&["StackMapTable"], 3, &body);
    let shown = format!("{:?}", parse_class_file(&bytes).unwrap_err());
    assert!(shown.contains("ReservedStackMapFrameTag"));
    assert!(shown.contains("200"));
}

#[test]
fn line_number_table_parses() {
    let mut body = Vec::new();
    push_u16(&mut body, 2);
    push_u16(&mut body, 0);
    push_u16(&mut body, 10);
    push_u16(&mut body, 4);
    push_u16(&mut body, 11);
    let bytes = class_with_attribute(&["LineNumberTable"], 3, &body);
    let cf = parse_class_file(&bytes).unwrap();
    match &cf.attributes[0] {
        AttributeInfo::LineNumberTable { line_number_table } => {
            assert_eq!(line_number_table.len(), 2);
            assert_eq!(line_number_table[0].start_pc, 0);
            assert_eq!(line_number_table[0].line_number, 10);
            assert_eq!(line_number_table[1].start_pc, 4);
            assert_eq!(line_number_table[1].line_number, 11);
        },
        other => panic!("unexpected: {:?}", other),
    }
}

#[test]
fn exceptions_attribute_checks_class_tags() {
    let mut body = Vec::new();
    push_u16(&mut body, 1);
    push_u16(&mut body, 2); // index 2 is the Class entry: fine
    let bytes = class_with_attribute(&["Exceptions"], 3, &body);
    let cf = parse_class_file(&bytes).unwrap();
    match &cf.attributes[0] {
        AttributeInfo::Exceptions { exception_index_table } => {
            assert_eq!(exception_index_table, &vec![2]);
        },
        other => panic!("unexpected: {:?}", other),
    }
    // an index at a non-Class entry must fail the tag check
    let mut bad = Vec::new();
    push_u16(&mut bad, 1);
    push_u16(&mut bad, 1); // index 1 is the Utf8 entry
    let bytes = class_with_attribute(&["Exceptions"], 3, &bad);
    let shown = format!("{:?}", parse_class_file(&bytes).unwrap_err());
    assert!(shown.contains("UnexpectedConstantPoolType"));
}

#[test]
fn inner_classes_attribute_parses() {
    let mut body = Vec::new();
    push_u16(&mut body, 1);
    push_u16(&mut body, 2); // inner_class_info_index: the Class entry
    push_u16(&mut body, 0); // outer: absent
    push_u16(&mut body, 1); // inner name: the Utf8 entry
    push_u16(&mut body, 0x0002);
    let bytes = class_with_attribute(&["InnerClasses"], 3, &body);
    let cf = parse_class_file(&bytes).unwrap();
    match &cf.attributes[0] {
        AttributeInfo::InnerClasses { classes } => {
            assert_eq!(classes.len(), 1);
            assert_eq!(classes[0].inner_class_info_index, 2);
            assert_eq!(classes[0].outer_class_info_index, 0);
            assert_eq!(classes[0].inner_name_index, 1);
            assert_eq!(classes[0].inner_class_access_flags, 2);
        },
        other => panic!("unexpected: {:?}", other),
    }
}

#[test]
fn runtime_visible_annotations_parse() {
    // one annotation of type "LA;" with one pair naming "x" holding int 5;
    // the pool needs Utf8 entries for the type, the name, and an Integer
    let mut out = Vec::new();
    push_u32(&mut out, 0xcafebabe);
    push_u16(&mut out, 0);
    push_u16(&mut out, 52);
    push_u16(&mut out, 7);
    push_utf8(&mut out, "A"); // 1
    out.push(7); // 2: Class { name_index: 1 }
    push_u16(&mut out, 1);
    push_utf8(&mut out, "RuntimeVisibleAnnotations"); // 3
    push_utf8(&mut out, "LA;"); // 4
    push_utf8(&mut out, "x"); // 5
    out.push(3); // 6: Integer 5
    push_u32(&mut out, 5);
    push_u16(&mut out, 0x21);
    push_u16(&mut out, 2);
    push_u16(&mut out, 0);
    push_u16(&mut out, 0);
    push_u16(&mut out, 0);
    push_u16(&mut out, 0);
    push_u16(&mut out, 1); // one class attribute
    push_u16(&mut out, 3);
    push_u32(&mut out, 2 + 2 + 2 + 2 + 1 + 2);
    push_u16(&mut out, 1); // one annotation
    push_u16(&mut out, 4); // type_index
    push_u16(&mut out, 1); // one pair
    push_u16(&mut out, 5); // element name
    out.push(b'I'); // tag: int
    push_u16(&mut out, 6); // the Integer entry
    let cf = parse_class_file(&out).unwrap();
    match &cf.attributes[0] {
        AttributeInfo::RuntimeVisibleAnnotations { annotations } => {
            assert_eq!(annotations.len(), 1);
            assert_eq!(annotations[0].type_index, 4);
            assert_eq!(annotations[0].element_value_pairs.len(), 1);
            assert_eq!(annotations[0].element_value_pairs[0].element_name_index, 5);
            assert!(matches!(
                annotations[0].element_value_pairs[0].value,
                ElementValue::Int { const_value_index: 6 }
            ));
        },
        other => panic!("unexpected: {:?}", other),
    }
}

#[test]
fn empty_pool_count_rejects_later_references() {
    // a header announcing a pool of zero slots leaves every index dangling
    let mut out = Vec::new();
    push_u32(&mut out, 0xcafebabe);
    push_u16(&mut out, 0);
    push_u16(&mut out, 52);
    push_u16(&mut out, 0); // no pool at all
    push_u16(&mut out, 0x21);
    push_u16(&mut out, 1); // this_class points into the void
    match parse_class_file(&out) {
        Err(Error::Within { cause, .. }) => {
            assert!(matches!(*cause, Error::ConstantPoolIndexOutOfBounds { index: 1 }));
        },
        other => panic!("unexpected: {:?}", other),
    }
}

#[test]
fn code_exception_table_allows_absent_catch_type() {
    // a Code attribute with two exception entries: one catching a class,
    // one with catch type zero, meaning any throwable
    let mut body = Vec::new();
    push_u16(&mut body, 0); // max_stack
    push_u16(&mut body, 0); // max_locals
    push_u32(&mut body, 1); // code_length
    body.push(0xb1);
    push_u16(&mut body, 2); // exception_table_length
    push_u16(&mut body, 0); // start_pc
    push_u16(&mut body, 1); // end_pc
    push_u16(&mut body, 1); // handler_pc
    push_u16(&mut body, 2); // catch_type: the Class entry
    push_u16(&mut body, 0);
    push_u16(&mut body, 1);
    push_u16(&mut body, 1);
    push_u16(&mut body, 0); // catch_type: absent
    push_u16(&mut body, 0); // code attributes
    let bytes = class_with_attribute(&["Code"], 3, &body);
    let cf = parse_class_file(&bytes).unwrap();
    match &cf.attributes[0] {
        AttributeInfo::Code { exception_table, .. } => {
            assert_eq!(exception_table.len(), 2);
            assert_eq!(exception_table[0].catch_type, 2);
            assert_eq!(exception_table[1].catch_type, 0);
        },
        other => panic!("unexpected: {:?}", other),
    }
}

#[test]
fn exception_catch_type_of_wrong_tag_fails() {
    let mut body = Vec::new();
    push_u16(&mut body, 0);
    push_u16(&mut body, 0);
    push_u32(&mut body, 1);
    body.push(0xb1);
    push_u16(&mut body, 1);
    push_u16(&mut body, 0);
    push_u16(&mut body, 1);
    push_u16(&mut body, 1);
    push_u16(&mut body, 1); // catch_type points at the Utf8 entry
    push_u16(&mut body, 0);
    let bytes = class_with_attribute(&["Code"], 3, &body);
    let shown = format!("{:?}", parse_class_file(&bytes).unwrap_err());
    assert!(shown.contains("UnexpectedConstantPoolType"));
    assert!(shown.contains("ExceptionTableEntry"));
}
