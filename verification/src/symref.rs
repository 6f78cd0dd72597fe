//! Symbolic references: unresolved name-based pointers to classes, fields
//! and methods, resolved to concrete runtime entities on demand.

use crate::sig;
use vstd::prelude::*;

verus! {

/// A symbolic reference to a class.
#[derive(Debug)]
pub struct Class {
    pub sig: sig::Class,
}

/// A symbolic reference to a field.
#[derive(Debug)]
pub struct Field {
    pub class: Class,
    pub sig: sig::Field,
}

/// A symbolic reference to a method.
#[derive(Debug)]
pub struct Method {
    pub class: Class,
    pub sig: sig::Method,
}

pub struct SpecClassRef {
    pub sig: sig::SpecClass,
}

pub struct SpecFieldRef {
    pub class: SpecClassRef,
    pub sig: sig::SpecField,
}

pub struct SpecMethodRef {
    pub class: SpecClassRef,
    pub sig: sig::SpecMethod,
}

pub open spec fn view_class_ref(c: Class) -> SpecClassRef {
    SpecClassRef { sig: sig::view_class(c.sig) }
}

pub open spec fn view_field_ref(f: Field) -> SpecFieldRef {
    SpecFieldRef { class: view_class_ref(f.class), sig: sig::view_field(f.sig) }
}

pub open spec fn view_method_ref(m: Method) -> SpecMethodRef {
    SpecMethodRef { class: view_class_ref(m.class), sig: sig::view_method(m.sig) }
}

} // verus!
