//! The typed representation of a class file: constant-pool entry variants,
//! field, method and class structures, and the access-flag masks the core
//! needs. Pure data; the parser builds it and the runtime layers consume it.
//!
//! The constant pool is one-indexed: entry `i` of the file stands at vector
//! position `i - 1`, and a `Long` or `Double` entry is followed by an
//! `Unusable` placeholder slot that no index may reference.

use crate::attributes::{view_attr_seq, AttributeInfo, SpecAttributeInfo};
use vstd::prelude::*;

verus! {

/// A field is `static` when this bit of its access flags is set.
pub const ACC_STATIC: u16 = 0x0008;

/// A class is an interface when this bit of its access flags is set.
pub const ACC_INTERFACE: u16 = 0x0200;

/// The kind of a `MethodHandle` constant, with the index of the referenced
/// field or method constant.
#[derive(Debug, Clone, Copy, PartialEq, Eq, Structural)]
pub enum ReferenceKind {
    GetField { reference_index: u16 },
    GetStatic { reference_index: u16 },
    PutField { reference_index: u16 },
    PutStatic { reference_index: u16 },
    InvokeVirtual { reference_index: u16 },
    InvokeStatic { reference_index: u16 },
    InvokeSpecial { reference_index: u16 },
    NewInvokeSpecial { reference_index: u16 },
    InvokeInterface { reference_index: u16 },
}

/// The tag of a constant-pool entry, used for index validation: every index
/// reference carries a statically-known expected tag, and a mismatch is a
/// hard parse error.
#[derive(Debug, Clone, Copy, PartialEq, Eq, Structural)]
pub enum Tag {
    Class,
    FieldRef,
    MethodRef,
    InterfaceMethodRef,
    String,
    Integer,
    Float,
    Long,
    Double,
    NameAndType,
    Utf8,
    MethodHandle,
    MethodType,
    InvokeDynamic,
    Unusable,
}

/// One constant-pool entry. `Utf8` holds the raw modified-UTF-8 bytes, not
/// yet decoded. `Unusable` is the placeholder slot after a `Long` or
/// `Double` entry.
#[derive(Debug, Clone)]
pub enum ConstantPoolInfo {
    Class { name_index: u16 },
    FieldRef { class_index: u16, name_and_type_index: u16 },
    MethodRef { class_index: u16, name_and_type_index: u16 },
    InterfaceMethodRef { class_index: u16, name_and_type_index: u16 },
    String { string_index: u16 },
    Integer { bytes: u32 },
    Float { bytes: u32 },
    Long { high_bytes: u32, low_bytes: u32 },
    Double { high_bytes: u32, low_bytes: u32 },
    NameAndType { name_index: u16, descriptor_index: u16 },
    Utf8 { bytes: Vec<u8> },
    MethodHandle { reference_kind: ReferenceKind },
    MethodType { descriptor_index: u16 },
    InvokeDynamic { bootstrap_method_attr_index: u16, name_and_type_index: u16 },
    Unusable,
}

pub enum SpecConstantPoolInfo {
    Class { name_index: u16 },
    FieldRef { class_index: u16, name_and_type_index: u16 },
    MethodRef { class_index: u16, name_and_type_index: u16 },
    InterfaceMethodRef { class_index: u16, name_and_type_index: u16 },
    String { string_index: u16 },
    Integer { bytes: u32 },
    Float { bytes: u32 },
    Long { high_bytes: u32, low_bytes: u32 },
    Double { high_bytes: u32, low_bytes: u32 },
    NameAndType { name_index: u16, descriptor_index: u16 },
    Utf8 { bytes: Seq<u8> },
    MethodHandle { reference_kind: ReferenceKind },
    MethodType { descriptor_index: u16 },
    InvokeDynamic { bootstrap_method_attr_index: u16, name_and_type_index: u16 },
    Unusable,
}

pub open spec fn view_cp_info(e: ConstantPoolInfo) -> SpecConstantPoolInfo {
    match e {
        ConstantPoolInfo::Class { name_index } => SpecConstantPoolInfo::Class { name_index },
        ConstantPoolInfo::FieldRef { class_index, name_and_type_index } =>
            SpecConstantPoolInfo::FieldRef { class_index, name_and_type_index },
        ConstantPoolInfo::MethodRef { class_index, name_and_type_index } =>
            SpecConstantPoolInfo::MethodRef { class_index, name_and_type_index },
        ConstantPoolInfo::InterfaceMethodRef { class_index, name_and_type_index } =>
            SpecConstantPoolInfo::InterfaceMethodRef { class_index, name_and_type_index },
        ConstantPoolInfo::String { string_index } => SpecConstantPoolInfo::String { string_index },
        ConstantPoolInfo::Integer { bytes } => SpecConstantPoolInfo::Integer { bytes },
        ConstantPoolInfo::Float { bytes } => SpecConstantPoolInfo::Float { bytes },
        ConstantPoolInfo::Long { high_bytes, low_bytes } => SpecConstantPoolInfo::Long {
            high_bytes,
            low_bytes,
        },
        ConstantPoolInfo::Double { high_bytes, low_bytes } => SpecConstantPoolInfo::Double {
            high_bytes,
            low_bytes,
        },
        ConstantPoolInfo::NameAndType { name_index, descriptor_index } =>
            SpecConstantPoolInfo::NameAndType { name_index, descriptor_index },
        ConstantPoolInfo::Utf8 { bytes } => SpecConstantPoolInfo::Utf8 { bytes: bytes@ },
        ConstantPoolInfo::MethodHandle { reference_kind } => SpecConstantPoolInfo::MethodHandle {
            reference_kind,
        },
        ConstantPoolInfo::MethodType { descriptor_index } => SpecConstantPoolInfo::MethodType {
            descriptor_index,
        },
        ConstantPoolInfo::InvokeDynamic { bootstrap_method_attr_index, name_and_type_index } =>
            SpecConstantPoolInfo::InvokeDynamic { bootstrap_method_attr_index, name_and_type_index },
        ConstantPoolInfo::Unusable => SpecConstantPoolInfo::Unusable,
    }
}

pub open spec fn view_cp_seq(s: Seq<ConstantPoolInfo>) -> Seq<SpecConstantPoolInfo> {
    Seq::new(s.len(), |i: int| view_cp_info(s[i]))
}

pub open spec fn spec_tag_of(e: SpecConstantPoolInfo) -> Tag {
    match e {
        SpecConstantPoolInfo::Class { .. } => Tag::Class,
        SpecConstantPoolInfo::FieldRef { .. } => Tag::FieldRef,
        SpecConstantPoolInfo::MethodRef { .. } => Tag::MethodRef,
        SpecConstantPoolInfo::InterfaceMethodRef { .. } => Tag::InterfaceMethodRef,
        SpecConstantPoolInfo::String { .. } => Tag::String,
        SpecConstantPoolInfo::Integer { .. } => Tag::Integer,
        SpecConstantPoolInfo::Float { .. } => Tag::Float,
        SpecConstantPoolInfo::Long { .. } => Tag::Long,
        SpecConstantPoolInfo::Double { .. } => Tag::Double,
        SpecConstantPoolInfo::NameAndType { .. } => Tag::NameAndType,
        SpecConstantPoolInfo::Utf8 { .. } => Tag::Utf8,
        SpecConstantPoolInfo::MethodHandle { .. } => Tag::MethodHandle,
        SpecConstantPoolInfo::MethodType { .. } => Tag::MethodType,
        SpecConstantPoolInfo::InvokeDynamic { .. } => Tag::InvokeDynamic,
        SpecConstantPoolInfo::Unusable => Tag::Unusable,
    }
}

impl ConstantPoolInfo {
    /// The tag of this entry.
    pub fn tag(&self) -> (t: Tag)
        ensures
            t == spec_tag_of(view_cp_info(*self)),
    {
        match self {
            ConstantPoolInfo::Class { .. } => Tag::Class,
            ConstantPoolInfo::FieldRef { .. } => Tag::FieldRef,
            ConstantPoolInfo::MethodRef { .. } => Tag::MethodRef,
            ConstantPoolInfo::InterfaceMethodRef { .. } => Tag::InterfaceMethodRef,
            ConstantPoolInfo::String { .. } => Tag::String,
            ConstantPoolInfo::Integer { .. } => Tag::Integer,
            ConstantPoolInfo::Float { .. } => Tag::Float,
            ConstantPoolInfo::Long { .. } => Tag::Long,
            ConstantPoolInfo::Double { .. } => Tag::Double,
            ConstantPoolInfo::NameAndType { .. } => Tag::NameAndType,
            ConstantPoolInfo::Utf8 { .. } => Tag::Utf8,
            ConstantPoolInfo::MethodHandle { .. } => Tag::MethodHandle,
            ConstantPoolInfo::MethodType { .. } => Tag::MethodType,
            ConstantPoolInfo::InvokeDynamic { .. } => Tag::InvokeDynamic,
            ConstantPoolInfo::Unusable => Tag::Unusable,
        }
    }
}

/// The constant-pool entry at one-based `index`, or `None` when the index is
/// zero or past the end.
pub open spec fn spec_cp_get(pool: Seq<SpecConstantPoolInfo>, index: int) -> Option<
    SpecConstantPoolInfo,
> {
    if 1 <= index && index <= pool.len() {
        Some(pool[index - 1])
    } else {
        None
    }
}

/// One-based lookup into a constant pool.
pub fn cp_get<'a>(pool: &'a Vec<ConstantPoolInfo>, index: u16) -> (r: Option<
    &'a ConstantPoolInfo,
>)
    ensures
        match r {
            Some(e) => spec_cp_get(view_cp_seq(pool@), index as int) == Some(view_cp_info(*e)),
            None => spec_cp_get(view_cp_seq(pool@), index as int) is None,
        },
{
    if index >= 1 && (index as usize) <= pool.len() {
        Some(&pool[(index - 1) as usize])
    } else {
        None
    }
}

/// One field declared by a class.
#[derive(Debug)]
pub struct FieldInfo {
    pub access_flags: u16,
    /// Index of the `Utf8` constant holding the field's unqualified name.
    pub name_index: u16,
    /// Index of the `Utf8` constant holding the field's descriptor.
    pub descriptor_index: u16,
    pub attributes: Vec<AttributeInfo>,
}

pub struct SpecFieldInfo {
    pub access_flags: u16,
    pub name_index: u16,
    pub descriptor_index: u16,
    pub attributes: Seq<SpecAttributeInfo>,
}

pub open spec fn view_field_info(f: FieldInfo) -> SpecFieldInfo {
    SpecFieldInfo {
        access_flags: f.access_flags,
        name_index: f.name_index,
        descriptor_index: f.descriptor_index,
        attributes: view_attr_seq(f.attributes@),
    }
}

pub open spec fn view_field_seq(s: Seq<FieldInfo>) -> Seq<SpecFieldInfo> {
    Seq::new(s.len(), |i: int| view_field_info(s[i]))
}

/// One method declared by a class.
#[derive(Debug)]
pub struct MethodInfo {
    pub access_flags: u16,
    /// Index of the `Utf8` constant holding the method's unqualified name.
    pub name_index: u16,
    /// Index of the `Utf8` constant holding the method's descriptor.
    pub descriptor_index: u16,
    pub attributes: Vec<AttributeInfo>,
}

pub struct SpecMethodInfo {
    pub access_flags: u16,
    pub name_index: u16,
    pub descriptor_index: u16,
    pub attributes: Seq<SpecAttributeInfo>,
}

pub open spec fn view_method_info(m: MethodInfo) -> SpecMethodInfo {
    SpecMethodInfo {
        access_flags: m.access_flags,
        name_index: m.name_index,
        descriptor_index: m.descriptor_index,
        attributes: view_attr_seq(m.attributes@),
    }
}

pub open spec fn view_method_seq(s: Seq<MethodInfo>) -> Seq<SpecMethodInfo> {
    Seq::new(s.len(), |i: int| view_method_info(s[i]))
}

/// A fully parsed class file. Constructed once by the parser from a byte
/// buffer and immutable thereafter.
#[derive(Debug)]
pub struct ClassFile {
    /// Always 0xCAFEBABE.
    pub magic: u32,
    pub minor_version: u16,
    pub major_version: u16,
    /// Number of constant-pool slots plus one: `constant_pool` holds
    /// `constant_pool_count - 1` entries, placeholders included.
    pub constant_pool_count: u16,
    /// One-based table of constants; see the module doc for the placeholder
    /// rule.
    pub constant_pool: Vec<ConstantPoolInfo>,
    pub access_flags: u16,
    /// Index of the `Class` constant naming this class.
    pub this_class: u16,
    /// Zero for the root class, else an index of the `Class` constant naming
    /// the direct superclass.
    pub super_class: u16,
    /// Indices of `Class` constants naming the direct superinterfaces.
    pub interfaces: Vec<u16>,
    pub fields: Vec<FieldInfo>,
    pub methods: Vec<MethodInfo>,
    pub attributes: Vec<AttributeInfo>,
}

pub struct SpecClassFile {
    pub magic: u32,
    pub minor_version: u16,
    pub major_version: u16,
    pub constant_pool_count: u16,
    pub constant_pool: Seq<SpecConstantPoolInfo>,
    pub access_flags: u16,
    pub this_class: u16,
    pub super_class: u16,
    pub interfaces: Seq<u16>,
    pub fields: Seq<SpecFieldInfo>,
    pub methods: Seq<SpecMethodInfo>,
    pub attributes: Seq<SpecAttributeInfo>,
}

pub open spec fn view_class_file(c: ClassFile) -> SpecClassFile {
    SpecClassFile {
        magic: c.magic,
        minor_version: c.minor_version,
        major_version: c.major_version,
        constant_pool_count: c.constant_pool_count,
        constant_pool: view_cp_seq(c.constant_pool@),
        access_flags: c.access_flags,
        this_class: c.this_class,
        super_class: c.super_class,
        interfaces: c.interfaces@,
        fields: view_field_seq(c.fields@),
        methods: view_method_seq(c.methods@),
        attributes: view_attr_seq(c.attributes@),
    }
}

} // verus!
