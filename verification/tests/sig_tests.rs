//! Tests of the descriptor grammar: field descriptors, method descriptors,
//! and the class signatures written in `Class` constants.

use rust_jvm::sig::{Class, Method, Type};

#[test]
fn primitive_field_descriptors() {
    assert!(matches!(Type::new("B"), Some(Type::Byte)));
    assert!(matches!(Type::new("C"), Some(Type::Char)));
    assert!(matches!(Type::new("D"), Some(Type::Double)));
    assert!(matches!(Type::new("F"), Some(Type::Float)));
    assert!(matches!(Type::new("I"), Some(Type::Int)));
    assert!(matches!(Type::new("J"), Some(Type::Long)));
    assert!(matches!(Type::new("S"), Some(Type::Short)));
    assert!(matches!(Type::new("Z"), Some(Type::Boolean)));
}

#[test]
fn reference_field_descriptor() {
    match Type::new("Ljava/lang/String;") {
        Some(Type::Reference(Class::Scalar(name))) => assert_eq!(name, "java/lang/String"),
        other => panic!("unexpected: {:?}", other),
    }
}

#[test]
fn array_field_descriptor() {
    match Type::new("[[I") {
        Some(Type::Reference(Class::Array(inner))) => match *inner {
            Type::Reference(Class::Array(inner2)) => assert!(matches!(*inner2, Type::Int)),
            other => panic!("unexpected inner: {:?}", other),
        },
        other => panic!("unexpected: {:?}", other),
    }
}

#[test]
fn malformed_field_descriptors_fail() {
    assert!(Type::new("X").is_none());
    assert!(Type::new("").is_none());
    assert!(Type::new("Ljava/lang/String").is_none());
    assert!(Type::new("II").is_none());
    assert!(Type::new("[").is_none());
}

#[test]
fn void_method_descriptor() {
    let m = Method::new("run", "()V").unwrap();
    assert_eq!(m.name, "run");
    assert_eq!(m.params.len(), 0);
    assert!(m.return_ty.is_none());
}

#[test]
fn method_descriptor_with_parameters() {
    let m = Method::new("mix", "(IJLjava/lang/Object;)I").unwrap();
    assert_eq!(m.params.len(), 3);
    assert!(matches!(m.params[0], Type::Int));
    assert!(matches!(m.params[1], Type::Long));
    assert!(matches!(m.params[2], Type::Reference(Class::Scalar(_))));
    assert!(matches!(m.return_ty, Some(Type::Int)));
}

#[test]
fn malformed_method_descriptors_fail() {
    assert!(Method::new("m", "()").is_none());
    assert!(Method::new("m", "(").is_none());
    assert!(Method::new("m", "I)V").is_none());
    assert!(Method::new("m", "()VV").is_none());
    assert!(Method::new("m", "()IJ").is_none());
}

#[test]
fn scalar_class_signature() {
    match Class::new("java/lang/Object") {
        Some(Class::Scalar(name)) => assert_eq!(name, "java/lang/Object"),
        other => panic!("unexpected: {:?}", other),
    }
}

#[test]
fn array_class_signature() {
    match Class::new("[I") {
        Some(Class::Array(inner)) => assert!(matches!(*inner, Type::Int)),
        other => panic!("unexpected: {:?}", other),
    }
    match Class::new("[Ljava/lang/String;") {
        Some(Class::Array(inner)) => {
            assert!(matches!(*inner, Type::Reference(Class::Scalar(_))))
        },
        other => panic!("unexpected: {:?}", other),
    }
}

#[test]
fn malformed_array_class_signature_fails() {
    assert!(Class::new("[").is_none());
    assert!(Class::new("[X").is_none());
    assert!(Class::new("[II").is_none());
}
