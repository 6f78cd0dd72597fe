//! The class-file parser: a sequential decoder of fixed-width big-endian
//! fields over an in-memory byte buffer. The constant pool is decoded first,
//! and every later index reference is validated against it: the index must
//! be in range and the entry's tag must match the statically expected tag.
//!
//! Beside each executable function `parse_x` stands the spec function
//! `sp_x` that says exactly what it returns — value, next position and
//! error alike — on every input.

use crate::attributes::{
    Annotation, AttributeInfo, ElementValue, ElementValuePair, ExceptionTableEntry, InnerClass,
    LineNumberInfo, LocalVariableInfo, LocalVariableTargetInfo, LocalVariableTypeInfo, Parameter,
    SpecAnnotation, SpecAttributeInfo, SpecElementValue, SpecElementValuePair, SpecStackMapFrame,
    SpecTargetInfo, SpecTypeAnnotation, SpecTypePath, StackMapFrame, TargetInfo, TypeAnnotation,
    TypePath, TypePathPart, VerificationTypeInfo, view_annotation, view_annotation_seq,
    view_annotation_seq_seq, view_attr, view_attr_seq, view_element_value, view_element_value_pair,
    view_element_value_seq, view_frame, view_frame_seq, view_pair_seq, view_target_info,
    view_type_annotation, view_type_annotation_seq, view_type_path,
};
use crate::model::{
    ClassFile, ConstantPoolInfo, FieldInfo, MethodInfo, ReferenceKind, SpecClassFile,
    SpecConstantPoolInfo, SpecFieldInfo, SpecMethodInfo, Tag, cp_get, spec_cp_get, spec_tag_of,
    view_class_file, view_cp_info, view_cp_seq, view_field_info, view_field_seq, view_method_info,
    view_method_seq,
};
use vstd::prelude::*;

verus! {

/// A structured parse error. A leaf names the exact failure; `Within` adds
/// the enclosing structure, so a failure deep in an attribute still tells
/// which table and which entry it broke in.
#[derive(Debug)]
pub enum Error {
    /// Fewer bytes remain at `at` than the `needed` bytes the next field
    /// spans: a short read, distinct from every structurally-wrong value.
    Incomplete { at: usize, needed: usize },
    /// The file does not begin with the fixed magic number.
    Magic,
    /// A constant-pool entry began with a tag byte no entry kind has.
    UnknownConstantPoolTag { tag: u8 },
    /// A `MethodHandle` constant names a reference kind that does not exist.
    UnknownConstantPoolMethodReferenceTag { tag: u8 },
    /// An index reference points at no entry: zero, past the end of the
    /// pool, or at the placeholder slot after a `Long` or `Double`.
    ConstantPoolIndexOutOfBounds { index: usize },
    /// An index reference points at an entry of the wrong kind.
    UnexpectedConstantPoolType { index: usize, expected: Tag, actual: Tag },
    /// A byte that can never occur in modified UTF-8 stands in a `Utf8`
    /// constant.
    IllegalModifiedUtf8 { byte: u8 },
    /// An attribute's name index points outside the constant pool.
    AttributeInfoNameIndexOutOfBounds { attribute_name_index: usize },
    /// A stack-map frame uses a tag the format reserves.
    ReservedStackMapFrameTag { tag: u8 },
    /// A verification-type tag no type has.
    UnknownVerificationTypeInfoTag { tag: u8 },
    /// An element-value tag no value kind has.
    UnknownElementValueTag { tag: u8 },
    /// A type-annotation target tag no target kind has.
    UnknownTargetTypeTag { tag: u8 },
    // What follows are the structural contexts that `Within` wraps a cause
    // in; each names the sub-structure that was being decoded.
    ClassFile,
    ConstantPool { constant_pool_count: usize },
    ConstantPoolEntry { index: usize },
    ConstantPoolInfo,
    ModifiedUtf8 { length: usize },
    Interfaces { interfaces_count: usize },
    Fields { fields_count: usize },
    FieldInfo,
    FieldAttributes { attributes_count: usize },
    Methods { methods_count: usize },
    MethodInfo,
    MethodAttributes { attributes_count: usize },
    ClassAttributes { attributes_count: usize },
    Attribute,
    AttributeInfo { attribute_name_index: usize, attribute_length: usize },
    CodeAttributes { attributes_count: usize },
    ExceptionTableEntry,
    StackMapTable { number_of_entries: usize },
    StackMapFrame,
    VerificationTypeInfo,
    InnerClasses { number_of_classes: usize },
    InnerClass,
    Signature,
    MethodParameters { parameters_count: usize },
    MethodParameter,
    ElementValuePair,
    ElementValuePairs { num_element_value_pairs: usize },
    ElementValueArray { num_values: usize },
    Annotations { num_annotations: usize },
    ParameterAnnotations { num_parameters: usize },
    TypeAnnotations { num_annotations: usize },
    LocalVariableTarget { table_length: usize },
    TypePath { path_length: usize },
    SourceDebugExtension,
    LineNumberTable { table_length: usize },
    LocalVariableTable { table_length: usize },
    LocalVariableTypeTable { table_length: usize },
    /// A failure `cause` that happened while decoding the structure named
    /// by `context`.
    ///
    /// The `AttributeInfo` context names the failing attribute by its name
    /// index and declared length; the name's text itself is one pool lookup
    /// away. A heap-allocated copy of the decoded name cannot stand in the
    /// error, because every error value here is pinned exactly by the
    /// specification functions, and specification code cannot build one.
    Within { context: Box<Error>, cause: Box<Error> },
}

/// Adds structural context to a failure. A short read stays bare, as the
/// missing bytes say everything; a structural failure is wrapped.
pub open spec fn wrap_err(ctx: Error, e: Error) -> Error {
    match e {
        Error::Incomplete { .. } => e,
        _ => Error::Within { context: Box::new(ctx), cause: Box::new(e) },
    }
}

fn wrap(ctx: Error, e: Error) -> (r: Error)
    ensures
        r == wrap_err(ctx, e),
{
    match e {
        Error::Incomplete { .. } => e,
        _ => Error::Within { context: Box::new(ctx), cause: Box::new(e) },
    }
}

pub open spec fn incomplete(i: int, n: int) -> Error {
    Error::Incomplete { at: i as usize, needed: n as usize }
}

pub open spec fn have(b: Seq<u8>, i: int, n: int) -> bool {
    0 <= i && i + n <= b.len()
}

pub open spec fn u8_at(b: Seq<u8>, i: int) -> u8 {
    b[i]
}

pub open spec fn u16_at(b: Seq<u8>, i: int) -> u16 {
    ((b[i] as u16) << 8) | (b[i + 1] as u16)
}

pub open spec fn u32_at(b: Seq<u8>, i: int) -> u32 {
    ((b[i] as u32) << 24) | ((b[i + 1] as u32) << 16) | ((b[i + 2] as u32) << 8) | (b[i
        + 3] as u32)
}

fn rd_u8(bytes: &Vec<u8>, pos: usize) -> (r: Result<(u8, usize), Error>)
    ensures
        match r {
            Ok((v, p)) => have(bytes@, pos as int, 1) && v == u8_at(bytes@, pos as int) && p == pos
                + 1,
            Err(e) => !have(bytes@, pos as int, 1) && e == incomplete(pos as int, 1),
        },
{
    if pos < bytes.len() {
        Ok((bytes[pos], pos + 1))
    } else {
        Err(Error::Incomplete { at: pos, needed: 1 })
    }
}

fn rd_u16(bytes: &Vec<u8>, pos: usize) -> (r: Result<(u16, usize), Error>)
    ensures
        match r {
            Ok((v, p)) => have(bytes@, pos as int, 2) && v == u16_at(bytes@, pos as int) && p == pos
                + 2,
            Err(e) => !have(bytes@, pos as int, 2) && e == incomplete(pos as int, 2),
        },
{
    if pos < bytes.len() && bytes.len() - pos >= 2 {
        let v = ((bytes[pos] as u16) << 8) | (bytes[pos + 1] as u16);
        Ok((v, pos + 2))
    } else {
        Err(Error::Incomplete { at: pos, needed: 2 })
    }
}

fn rd_u32(bytes: &Vec<u8>, pos: usize) -> (r: Result<(u32, usize), Error>)
    ensures
        match r {
            Ok((v, p)) => have(bytes@, pos as int, 4) && v == u32_at(bytes@, pos as int) && p == pos
                + 4,
            Err(e) => !have(bytes@, pos as int, 4) && e == incomplete(pos as int, 4),
        },
{
    if pos < bytes.len() && bytes.len() - pos >= 4 {
        let v = ((bytes[pos] as u32) << 24) | ((bytes[pos + 1] as u32) << 16) | ((bytes[pos
            + 2] as u32) << 8) | (bytes[pos + 3] as u32);
        Ok((v, pos + 4))
    } else {
        Err(Error::Incomplete { at: pos, needed: 4 })
    }
}

/// Checks a one-based constant-pool index against the expected tag: `None`
/// when the reference is valid, else the exact error. The placeholder slot
/// after a `Long` or `Double` has tag `Unusable` and so never matches.
pub open spec fn sp_check_tag(pool: Seq<SpecConstantPoolInfo>, index: int, tag: Tag) -> Option<
    Error,
> {
    match spec_cp_get(pool, index) {
        Option::None => Some(Error::ConstantPoolIndexOutOfBounds { index: index as usize }),
        Option::Some(e) => if spec_tag_of(e) == tag {
            None
        } else {
            Some(
                Error::UnexpectedConstantPoolType {
                    index: index as usize,
                    expected: tag,
                    actual: spec_tag_of(e),
                },
            )
        },
    }
}

fn check_tag(pool: &Vec<ConstantPoolInfo>, index: u16, tag: Tag) -> (r: Option<Error>)
    ensures
        r == sp_check_tag(view_cp_seq(pool@), index as int, tag),
{
    match cp_get(pool, index) {
        Option::None => Some(Error::ConstantPoolIndexOutOfBounds { index: index as usize }),
        Option::Some(e) => {
            let actual = e.tag();
            if actual == tag {
                None
            } else {
                Some(
                    Error::UnexpectedConstantPoolType { index: index as usize, expected: tag, actual },
                )
            }
        },
    }
}

/// Reads a two-byte constant-pool index that must be nonzero and point at an
/// entry of the expected tag.
pub open spec fn sp_cp_index_tag(
    b: Seq<u8>,
    i: int,
    pool: Seq<SpecConstantPoolInfo>,
    tag: Tag,
) -> Result<u16, Error> {
    if !have(b, i, 2) {
        Err(incomplete(i, 2))
    } else {
        let idx = u16_at(b, i);
        match sp_check_tag(pool, idx as int, tag) {
            Some(e) => Err(e),
            None => Ok(idx),
        }
    }
}

fn cp_index_tag(bytes: &Vec<u8>, pos: usize, pool: &Vec<ConstantPoolInfo>, tag: Tag) -> (r: Result<
    (u16, usize),
    Error,
>)
    ensures
        match r {
            Ok((v, p)) => sp_cp_index_tag(bytes@, pos as int, view_cp_seq(pool@), tag) == Ok::<
                u16,
                Error,
            >(v) && p == pos + 2 && p <= bytes.len(),
            Err(e) => sp_cp_index_tag(bytes@, pos as int, view_cp_seq(pool@), tag) == Err::<
                u16,
                Error,
            >(e),
        },
{
    let (idx, p) = match rd_u16(bytes, pos) {
        Ok(r) => r,
        Err(e) => {
            return Err(e);
        },
    };
    match check_tag(pool, idx, tag) {
        Some(e) => Err(e),
        None => Ok((idx, p)),
    }
}

/// Reads a two-byte constant-pool index that may be zero, meaning absent;
/// when nonzero it must point at an entry of the expected tag.
pub open spec fn sp_maybe_cp_index_tag(
    b: Seq<u8>,
    i: int,
    pool: Seq<SpecConstantPoolInfo>,
    tag: Tag,
) -> Result<u16, Error> {
    if !have(b, i, 2) {
        Err(incomplete(i, 2))
    } else {
        let idx = u16_at(b, i);
        if idx == 0 {
            Ok(idx)
        } else {
            match sp_check_tag(pool, idx as int, tag) {
                Some(e) => Err(e),
                None => Ok(idx),
            }
        }
    }
}

fn maybe_cp_index_tag(
    bytes: &Vec<u8>,
    pos: usize,
    pool: &Vec<ConstantPoolInfo>,
    tag: Tag,
) -> (r: Result<(u16, usize), Error>)
    ensures
        match r {
            Ok((v, p)) => sp_maybe_cp_index_tag(bytes@, pos as int, view_cp_seq(pool@), tag) == Ok::<
                u16,
                Error,
            >(v) && p == pos + 2 && p <= bytes.len(),
            Err(e) => sp_maybe_cp_index_tag(bytes@, pos as int, view_cp_seq(pool@), tag) == Err::<
                u16,
                Error,
            >(e),
        },
{
    let (idx, p) = match rd_u16(bytes, pos) {
        Ok(r) => r,
        Err(e) => {
            return Err(e);
        },
    };
    if idx == 0 {
        return Ok((idx, p));
    }
    match check_tag(pool, idx, tag) {
        Some(e) => Err(e),
        None => Ok((idx, p)),
    }
}

/// Takes `n` bytes of modified UTF-8, refusing every byte that can never
/// occur in the encoding (0x00 and 0xF0 through 0xFF).
pub open spec fn sp_mutf8_bytes(b: Seq<u8>, i: int, n: int) -> Result<(Seq<u8>, int), Error>
    decreases n,
{
    if n <= 0 {
        Ok((Seq::empty(), i))
    } else if !have(b, i, 1) {
        Err(incomplete(i, 1))
    } else if crate::mutf8::is_illegal_byte(b[i]) {
        Err(Error::IllegalModifiedUtf8 { byte: b[i] })
    } else {
        match sp_mutf8_bytes(b, i + 1, n - 1) {
            Err(e) => Err(e),
            Ok((bs, p)) => Ok((seq![b[i]] + bs, p)),
        }
    }
}

fn parse_mutf8_bytes(bytes: &Vec<u8>, pos: usize, n: usize) -> (r: Result<(Vec<u8>, usize), Error>)
    ensures
        match r {
            Ok((v, p)) => sp_mutf8_bytes(bytes@, pos as int, n as int) == Ok::<
                (Seq<u8>, int),
                Error,
            >((v@, p as int)) && p == pos + n && (n == 0 || p <= bytes.len()),
            Err(e) => sp_mutf8_bytes(bytes@, pos as int, n as int) == Err::<(Seq<u8>, int), Error>(
                e,
            ),
        },
{
    let mut out: Vec<u8> = Vec::new();
    let mut k: usize = 0;
    while k < n
        invariant
            k <= n,
            pos + k <= usize::MAX,
            out@.len() == k,
            sp_mutf8_bytes(bytes@, pos as int, n as int) == (match sp_mutf8_bytes(
                bytes@,
                pos + k,
                n - k,
            ) {
                Ok((bs, p)) => Ok::<(Seq<u8>, int), Error>((out@ + bs, p)),
                Err(e) => Err::<(Seq<u8>, int), Error>(e),
            }),
            pos + k <= bytes@.len() || k == 0,
        decreases n - k,
    {
        let ghost out0 = out@;
        if pos >= bytes.len() || bytes.len() - pos <= k {
            return Err(Error::Incomplete { at: pos + k, needed: 1 });
        }
        let b0 = bytes[pos + k];
        if b0 == 0x00 || b0 >= 0xf0 {
            return Err(Error::IllegalModifiedUtf8 { byte: b0 });
        }
        out.push(b0);
        k = k + 1;
        proof {
            match sp_mutf8_bytes(bytes@, pos + k, n - k) {
                Ok((bs, _)) => crate::mutf8::lemma_push_prepend(out0, b0, bs),
                Err(_) => {},
            }
        }
    }
    proof {
        assert(out@ + Seq::<u8>::empty() =~= out@);
    }
    Ok((out, pos + n))
}

/// Decodes the body of one constant-pool entry, the tag byte already read.
pub open spec fn sp_cp_info_body(b: Seq<u8>, i: int, tag: u8) -> Result<
    (SpecConstantPoolInfo, int),
    Error,
> {
    if tag == 7 {
        if !have(b, i, 2) {
            Err(incomplete(i, 2))
        } else {
            Ok((SpecConstantPoolInfo::Class { name_index: u16_at(b, i) }, i + 2))
        }
    } else if tag == 9 || tag == 10 || tag == 11 {
        if !have(b, i, 4) {
            Err(incomplete(if have(b, i, 2) { i + 2 } else { i }, 2))
        } else {
            let ci = u16_at(b, i);
            let nti = u16_at(b, i + 2);
            Ok(
                (
                    if tag == 9 {
                        SpecConstantPoolInfo::FieldRef {
                            class_index: ci,
                            name_and_type_index: nti,
                        }
                    } else if tag == 10 {
                        SpecConstantPoolInfo::MethodRef {
                            class_index: ci,
                            name_and_type_index: nti,
                        }
                    } else {
                        SpecConstantPoolInfo::InterfaceMethodRef {
                            class_index: ci,
                            name_and_type_index: nti,
                        }
                    },
                    i + 4,
                ),
            )
        }
    } else if tag == 8 {
        if !have(b, i, 2) {
            Err(incomplete(i, 2))
        } else {
            Ok((SpecConstantPoolInfo::String { string_index: u16_at(b, i) }, i + 2))
        }
    } else if tag == 3 {
        if !have(b, i, 4) {
            Err(incomplete(i, 4))
        } else {
            Ok((SpecConstantPoolInfo::Integer { bytes: u32_at(b, i) }, i + 4))
        }
    } else if tag == 4 {
        if !have(b, i, 4) {
            Err(incomplete(i, 4))
        } else {
            Ok((SpecConstantPoolInfo::Float { bytes: u32_at(b, i) }, i + 4))
        }
    } else if tag == 5 || tag == 6 {
        if !have(b, i, 8) {
            Err(incomplete(if have(b, i, 4) { i + 4 } else { i }, 4))
        } else {
            let hi = u32_at(b, i);
            let lo = u32_at(b, i + 4);
            Ok(
                (
                    if tag == 5 {
                        SpecConstantPoolInfo::Long { high_bytes: hi, low_bytes: lo }
                    } else {
                        SpecConstantPoolInfo::Double { high_bytes: hi, low_bytes: lo }
                    },
                    i + 8,
                ),
            )
        }
    } else if tag == 12 {
        if !have(b, i, 4) {
            Err(incomplete(if have(b, i, 2) { i + 2 } else { i }, 2))
        } else {
            Ok(
                (
                    SpecConstantPoolInfo::NameAndType {
                        name_index: u16_at(b, i),
                        descriptor_index: u16_at(b, i + 2),
                    },
                    i + 4,
                ),
            )
        }
    } else if tag == 1 {
        if !have(b, i, 2) {
            Err(incomplete(i, 2))
        } else {
            let len = u16_at(b, i);
            match sp_mutf8_bytes(b, i + 2, len as int) {
                Err(e) => Err(wrap_err(Error::ModifiedUtf8 { length: len as usize }, e)),
                Ok((bs, p)) => Ok((SpecConstantPoolInfo::Utf8 { bytes: bs }, p)),
            }
        }
    } else if tag == 15 {
        if !have(b, i, 1) {
            Err(incomplete(i, 1))
        } else {
            let kind = u8_at(b, i);
            if kind < 1 || kind > 9 {
                Err(Error::UnknownConstantPoolMethodReferenceTag { tag: kind })
            } else if !have(b, i + 1, 2) {
                Err(incomplete(i + 1, 2))
            } else {
                let ri = u16_at(b, i + 1);
                Ok(
                    (
                        SpecConstantPoolInfo::MethodHandle {
                            reference_kind: spec_reference_kind(kind, ri),
                        },
                        i + 3,
                    ),
                )
            }
        }
    } else if tag == 16 {
        if !have(b, i, 2) {
            Err(incomplete(i, 2))
        } else {
            Ok((SpecConstantPoolInfo::MethodType { descriptor_index: u16_at(b, i) }, i + 2))
        }
    } else if tag == 18 {
        if !have(b, i, 4) {
            Err(incomplete(if have(b, i, 2) { i + 2 } else { i }, 2))
        } else {
            Ok(
                (
                    SpecConstantPoolInfo::InvokeDynamic {
                        bootstrap_method_attr_index: u16_at(b, i),
                        name_and_type_index: u16_at(b, i + 2),
                    },
                    i + 4,
                ),
            )
        }
    } else {
        Err(Error::UnknownConstantPoolTag { tag })
    }
}

pub open spec fn spec_reference_kind(kind: u8, ri: u16) -> ReferenceKind {
    if kind == 1 {
        ReferenceKind::GetField { reference_index: ri }
    } else if kind == 2 {
        ReferenceKind::GetStatic { reference_index: ri }
    } else if kind == 3 {
        ReferenceKind::PutField { reference_index: ri }
    } else if kind == 4 {
        ReferenceKind::PutStatic { reference_index: ri }
    } else if kind == 5 {
        ReferenceKind::InvokeVirtual { reference_index: ri }
    } else if kind == 6 {
        ReferenceKind::InvokeStatic { reference_index: ri }
    } else if kind == 7 {
        ReferenceKind::InvokeSpecial { reference_index: ri }
    } else if kind == 8 {
        ReferenceKind::NewInvokeSpecial { reference_index: ri }
    } else {
        ReferenceKind::InvokeInterface { reference_index: ri }
    }
}

fn reference_kind(kind: u8, ri: u16) -> (r: ReferenceKind)
    requires
        1 <= kind && kind <= 9,
    ensures
        r == spec_reference_kind(kind, ri),
{
    if kind == 1 {
        ReferenceKind::GetField { reference_index: ri }
    } else if kind == 2 {
        ReferenceKind::GetStatic { reference_index: ri }
    } else if kind == 3 {
        ReferenceKind::PutField { reference_index: ri }
    } else if kind == 4 {
        ReferenceKind::PutStatic { reference_index: ri }
    } else if kind == 5 {
        ReferenceKind::InvokeVirtual { reference_index: ri }
    } else if kind == 6 {
        ReferenceKind::InvokeStatic { reference_index: ri }
    } else if kind == 7 {
        ReferenceKind::InvokeSpecial { reference_index: ri }
    } else if kind == 8 {
        ReferenceKind::NewInvokeSpecial { reference_index: ri }
    } else {
        ReferenceKind::InvokeInterface { reference_index: ri }
    }
}

/// One whole constant-pool entry: the tag byte, then the body, the failure
/// wrapped in the `ConstantPoolInfo` context.
pub open spec fn sp_cp_info(b: Seq<u8>, i: int) -> Result<(SpecConstantPoolInfo, int), Error> {
    if !have(b, i, 1) {
        Err(incomplete(i, 1))
    } else {
        match sp_cp_info_body(b, i + 1, u8_at(b, i)) {
            Err(e) => Err(wrap_err(Error::ConstantPoolInfo, e)),
            Ok((info, p)) => Ok((info, p)),
        }
    }
}

fn parse_cp_info(bytes: &Vec<u8>, pos: usize) -> (r: Result<(ConstantPoolInfo, usize), Error>)
    ensures
        match r {
            Ok((v, p)) => sp_cp_info(bytes@, pos as int) == Ok::<(SpecConstantPoolInfo, int), Error>(
                (view_cp_info(v), p as int),
            ) && pos < p <= bytes.len(),
            Err(e) => sp_cp_info(bytes@, pos as int) == Err::<(SpecConstantPoolInfo, int), Error>(
                e,
            ),
        },
{
    let (tag, p) = match rd_u8(bytes, pos) {
        Ok(r) => r,
        Err(e) => {
            return Err(e);
        },
    };
    let r: Result<(ConstantPoolInfo, usize), Error> = if tag == 7 {
        match rd_u16(bytes, p) {
            Err(e) => Err(e),
            Ok((ni, p2)) => Ok((ConstantPoolInfo::Class { name_index: ni }, p2)),
        }
    } else if tag == 9 || tag == 10 || tag == 11 {
        match rd_u16(bytes, p) {
            Err(e) => Err(e),
            Ok((ci, p2)) => match rd_u16(bytes, p2) {
                Err(e) => Err(e),
                Ok((nti, p3)) => Ok(
                    (
                        if tag == 9 {
                            ConstantPoolInfo::FieldRef {
                                class_index: ci,
                                name_and_type_index: nti,
                            }
                        } else if tag == 10 {
                            ConstantPoolInfo::MethodRef {
                                class_index: ci,
                                name_and_type_index: nti,
                            }
                        } else {
                            ConstantPoolInfo::InterfaceMethodRef {
                                class_index: ci,
                                name_and_type_index: nti,
                            }
                        },
                        p3,
                    ),
                ),
            },
        }
    } else if tag == 8 {
        match rd_u16(bytes, p) {
            Err(e) => Err(e),
            Ok((si, p2)) => Ok((ConstantPoolInfo::String { string_index: si }, p2)),
        }
    } else if tag == 3 {
        match rd_u32(bytes, p) {
            Err(e) => Err(e),
            Ok((v, p2)) => Ok((ConstantPoolInfo::Integer { bytes: v }, p2)),
        }
    } else if tag == 4 {
        match rd_u32(bytes, p) {
            Err(e) => Err(e),
            Ok((v, p2)) => Ok((ConstantPoolInfo::Float { bytes: v }, p2)),
        }
    } else if tag == 5 || tag == 6 {
        match rd_u32(bytes, p) {
            Err(e) => Err(e),
            Ok((hi, p2)) => match rd_u32(bytes, p2) {
                Err(e) => Err(e),
                Ok((lo, p3)) => Ok(
                    (
                        if tag == 5 {
                            ConstantPoolInfo::Long { high_bytes: hi, low_bytes: lo }
                        } else {
                            ConstantPoolInfo::Double { high_bytes: hi, low_bytes: lo }
                        },
                        p3,
                    ),
                ),
            },
        }
    } else if tag == 12 {
        match rd_u16(bytes, p) {
            Err(e) => Err(e),
            Ok((ni, p2)) => match rd_u16(bytes, p2) {
                Err(e) => Err(e),
                Ok((di, p3)) => Ok(
                    (ConstantPoolInfo::NameAndType { name_index: ni, descriptor_index: di }, p3),
                ),
            },
        }
    } else if tag == 1 {
        match rd_u16(bytes, p) {
            Err(e) => Err(e),
            Ok((len, p2)) => match parse_mutf8_bytes(bytes, p2, len as usize) {
                Err(e) => Err(wrap(Error::ModifiedUtf8 { length: len as usize }, e)),
                Ok((bs, p3)) => Ok((ConstantPoolInfo::Utf8 { bytes: bs }, p3)),
            },
        }
    } else if tag == 15 {
        match rd_u8(bytes, p) {
            Err(e) => Err(e),
            Ok((kind, p2)) => {
                if kind < 1 || kind > 9 {
                    Err(Error::UnknownConstantPoolMethodReferenceTag { tag: kind })
                } else {
                    match rd_u16(bytes, p2) {
                        Err(e) => Err(e),
                        Ok((ri, p3)) => Ok(
                            (
                                ConstantPoolInfo::MethodHandle {
                                    reference_kind: reference_kind(kind, ri),
                                },
                                p3,
                            ),
                        ),
                    }
                }
            },
        }
    } else if tag == 16 {
        match rd_u16(bytes, p) {
            Err(e) => Err(e),
            Ok((di, p2)) => Ok((ConstantPoolInfo::MethodType { descriptor_index: di }, p2)),
        }
    } else if tag == 18 {
        match rd_u16(bytes, p) {
            Err(e) => Err(e),
            Ok((bi, p2)) => match rd_u16(bytes, p2) {
                Err(e) => Err(e),
                Ok((nti, p3)) => Ok(
                    (
                        ConstantPoolInfo::InvokeDynamic {
                            bootstrap_method_attr_index: bi,
                            name_and_type_index: nti,
                        },
                        p3,
                    ),
                ),
            },
        }
    } else {
        Err(Error::UnknownConstantPoolTag { tag })
    };
    match r {
        Err(e) => Err(wrap(Error::ConstantPoolInfo, e)),
        Ok(v) => Ok(v),
    }
}

/// Decodes constant-pool entries until `slots` one-based slots are filled.
/// A `Long` or `Double` entry fills two slots, the second with the
/// `Unusable` placeholder; every other entry fills one. A failing entry is
/// wrapped in the `ConstantPoolEntry` context carrying its zero-based slot.
pub open spec fn sp_cp_entries(b: Seq<u8>, i: int, slots: int, idx: int) -> Result<
    (Seq<SpecConstantPoolInfo>, int),
    Error,
>
    decreases (if slots >= 0 { slots + 1 } else { 0 }),
{
    if slots <= 0 {
        Ok((Seq::empty(), i))
    } else {
        match sp_cp_info(b, i) {
            Err(e) => Err(wrap_err(Error::ConstantPoolEntry { index: idx as usize }, e)),
            Ok((info, p)) => {
                let wide = spec_tag_of(info) == Tag::Long || spec_tag_of(info) == Tag::Double;
                if i < p <= b.len() {
                    if wide {
                        match sp_cp_entries(b, p, slots - 2, idx + 2) {
                            Err(e) => Err(e),
                            Ok((rest, q)) => Ok(
                                (seq![info, SpecConstantPoolInfo::Unusable] + rest, q),
                            ),
                        }
                    } else {
                        match sp_cp_entries(b, p, slots - 1, idx + 1) {
                            Err(e) => Err(e),
                            Ok((rest, q)) => Ok((seq![info] + rest, q)),
                        }
                    }
                } else {
                    // unreachable: every entry consumes at least its tag byte
                    Err(incomplete(i, 1))
                }
            },
        }
    }
}

fn parse_cp_entries(bytes: &Vec<u8>, pos: usize, slots: usize) -> (r: Result<
    (Vec<ConstantPoolInfo>, usize),
    Error,
>)
    requires
        slots < 0x10000,
        pos <= bytes@.len(),
    ensures
        match r {
            Ok((v, p)) => sp_cp_entries(bytes@, pos as int, slots as int, 0) == Ok::<
                (Seq<SpecConstantPoolInfo>, int),
                Error,
            >((view_cp_seq(v@), p as int)) && pos <= p <= bytes.len(),
            Err(e) => sp_cp_entries(bytes@, pos as int, slots as int, 0) == Err::<
                (Seq<SpecConstantPoolInfo>, int),
                Error,
            >(e),
        },
{
    let mut out: Vec<ConstantPoolInfo> = Vec::new();
    let mut cur = pos;
    let mut filled: usize = 0;
    while filled < slots
        invariant
            slots < 0x10000,
            filled <= slots + 1,
            pos <= cur <= bytes@.len(),
            sp_cp_entries(bytes@, pos as int, slots as int, 0) == (match sp_cp_entries(
                bytes@,
                cur as int,
                slots - filled,
                filled as int,
            ) {
                Ok((rest, q)) => Ok::<(Seq<SpecConstantPoolInfo>, int), Error>(
                    (view_cp_seq(out@) + rest, q),
                ),
                Err(e) => Err::<(Seq<SpecConstantPoolInfo>, int), Error>(e),
            }),
            out@.len() == filled,
        decreases slots + 1 - filled,
    {
        let ghost out0 = out@;
        match parse_cp_info(bytes, cur) {
            Err(e) => {
                return Err(wrap(Error::ConstantPoolEntry { index: filled }, e));
            },
            Ok((info, p)) => {
                let wide = match &info {
                    ConstantPoolInfo::Long { .. } => true,
                    ConstantPoolInfo::Double { .. } => true,
                    _ => false,
                };
                if wide {
                    out.push(info);
                    out.push(ConstantPoolInfo::Unusable);
                    filled = filled + 2;
                } else {
                    out.push(info);
                    filled = filled + 1;
                }
                cur = p;
                proof {
                    let b = bytes@;
                    match sp_cp_entries(b, cur as int, slots - filled, filled as int) {
                        Ok((rest, _)) => {
                            if wide {
                                assert(view_cp_seq(out@) =~= view_cp_seq(out0) + seq![
                                    view_cp_info(out@[out0.len() as int]),
                                    SpecConstantPoolInfo::Unusable,
                                ]);
                                assert((view_cp_seq(out0) + seq![
                                    view_cp_info(out@[out0.len() as int]),
                                    SpecConstantPoolInfo::Unusable,
                                ]) + rest =~= view_cp_seq(out0) + (seq![
                                    view_cp_info(out@[out0.len() as int]),
                                    SpecConstantPoolInfo::Unusable,
                                ] + rest));
                            } else {
                                assert(view_cp_seq(out@) =~= view_cp_seq(out0) + seq![
                                    view_cp_info(out@[out0.len() as int]),
                                ]);
                                assert((view_cp_seq(out0) + seq![
                                    view_cp_info(out@[out0.len() as int]),
                                ]) + rest =~= view_cp_seq(out0) + (seq![
                                    view_cp_info(out@[out0.len() as int]),
                                ] + rest));
                            }
                        },
                        Err(_) => {},
                    }
                }
            },
        }
    }
    proof {
        assert(view_cp_seq(out@) + Seq::<SpecConstantPoolInfo>::empty() =~= view_cp_seq(out@));
    }
    Ok((out, cur))
}



/// Takes `n` raw bytes.
pub open spec fn sp_take(b: Seq<u8>, i: int, n: int) -> Result<(Seq<u8>, int), Error> {
    if have(b, i, n) {
        Ok((b.subrange(i, i + n), i + n))
    } else {
        Err(incomplete(i, n))
    }
}

fn parse_take(bytes: &Vec<u8>, pos: usize, n: usize) -> (r: Result<(Vec<u8>, usize), Error>)
    requires
        pos <= bytes@.len(),
    ensures
        match r {
            Ok((v, p)) => sp_take(bytes@, pos as int, n as int) == Ok::<(Seq<u8>, int), Error>(
                (v@, p as int),
            ) && pos <= p <= bytes.len(),
            Err(e) => sp_take(bytes@, pos as int, n as int) == Err::<(Seq<u8>, int), Error>(e),
        },
{
    if bytes.len() - pos < n {
        return Err(Error::Incomplete { at: pos, needed: n });
    }
    let mut out: Vec<u8> = Vec::new();
    let mut k: usize = 0;
    while k < n
        invariant
            k <= n,
            pos + n <= bytes@.len(),
            pos + n <= usize::MAX,
            out@ =~= bytes@.subrange(pos as int, pos + k),
        decreases n - k,
    {
        out.push(bytes[pos + k]);
        k = k + 1;
    }
    proof {
        assert(out@ =~= bytes@.subrange(pos as int, pos + n));
    }
    Ok((out, pos + n))
}

/// A row of plain two-byte values, as the interface table holds.
pub open spec fn sp_u16_list(b: Seq<u8>, i: int, n: int) -> Result<(Seq<u16>, int), Error>
    decreases n,
{
    if n <= 0 {
        Ok((Seq::empty(), i))
    } else if !have(b, i, 2) {
        Err(incomplete(i, 2))
    } else {
        match sp_u16_list(b, i + 2, n - 1) {
            Err(e) => Err(e),
            Ok((xs, q)) => Ok((seq![u16_at(b, i)] + xs, q)),
        }
    }
}

fn parse_u16_list(bytes: &Vec<u8>, pos: usize, n: usize) -> (r: Result<(Vec<u16>, usize), Error>)
    requires
        pos <= bytes@.len(),
    ensures
        match r {
            Ok((v, p)) => sp_u16_list(bytes@, pos as int, n as int) == Ok::<(Seq<u16>, int), Error>(
                (v@, p as int),
            ) && pos <= p <= bytes.len(),
            Err(e) => sp_u16_list(bytes@, pos as int, n as int) == Err::<(Seq<u16>, int), Error>(e),
        },
{
    let mut out: Vec<u16> = Vec::new();
    let mut cur = pos;
    let mut k: usize = 0;
    while k < n
        invariant
            k <= n,
            pos <= cur <= bytes@.len(),
            sp_u16_list(bytes@, pos as int, n as int) == (match sp_u16_list(
                bytes@,
                cur as int,
                n - k,
            ) {
                Ok((rest, q)) => Ok::<(Seq<u16>, int), Error>((out@ + rest, q)),
                Err(e) => Err::<(Seq<u16>, int), Error>(e),
            }),
        decreases n - k,
    {
        let ghost out0 = out@;
        match rd_u16(bytes, cur) {
            Err(e) => {
                return Err(e);
            },
            Ok((v, p)) => {
                out.push(v);
                cur = p;
                k = k + 1;
                proof {
                    match sp_u16_list(bytes@, cur as int, n - k) {
                        Ok((rest, _)) => crate::mutf8::lemma_push_prepend(out0, v, rest),
                        Err(_) => {},
                    }
                }
            },
        }
    }
    proof {
        assert(out@ + Seq::<u16>::empty() =~= out@);
    }
    Ok((out, cur))
}

/// A row of class references: each a nonzero index of a `Class` constant, as
/// the `Exceptions` attribute holds.
pub open spec fn sp_class_index_list(
    b: Seq<u8>,
    i: int,
    n: int,
    pool: Seq<SpecConstantPoolInfo>,
) -> Result<(Seq<u16>, int), Error>
    decreases n,
{
    if n <= 0 {
        Ok((Seq::empty(), i))
    } else {
        match sp_cp_index_tag(b, i, pool, Tag::Class) {
            Err(e) => Err(e),
            Ok(idx) => match sp_class_index_list(b, i + 2, n - 1, pool) {
                Err(e) => Err(e),
                Ok((xs, q)) => Ok((seq![idx] + xs, q)),
            },
        }
    }
}

fn parse_class_index_list(
    bytes: &Vec<u8>,
    pos: usize,
    n: usize,
    pool: &Vec<ConstantPoolInfo>,
) -> (r: Result<(Vec<u16>, usize), Error>)
    requires
        pos <= bytes@.len(),
    ensures
        match r {
            Ok((v, p)) => sp_class_index_list(bytes@, pos as int, n as int, view_cp_seq(pool@))
                == Ok::<(Seq<u16>, int), Error>((v@, p as int)) && pos <= p <= bytes.len(),
            Err(e) => sp_class_index_list(bytes@, pos as int, n as int, view_cp_seq(pool@)) == Err::<
                (Seq<u16>, int),
                Error,
            >(e),
        },
{
    let mut out: Vec<u16> = Vec::new();
    let mut cur = pos;
    let mut k: usize = 0;
    while k < n
        invariant
            k <= n,
            pos <= cur <= bytes@.len(),
            sp_class_index_list(bytes@, pos as int, n as int, view_cp_seq(pool@)) == (
            match sp_class_index_list(bytes@, cur as int, n - k, view_cp_seq(pool@)) {
                Ok((rest, q)) => Ok::<(Seq<u16>, int), Error>((out@ + rest, q)),
                Err(e) => Err::<(Seq<u16>, int), Error>(e),
            }),
        decreases n - k,
    {
        let ghost out0 = out@;
        match cp_index_tag(bytes, cur, pool, Tag::Class) {
            Err(e) => {
                return Err(e);
            },
            Ok((v, p)) => {
                out.push(v);
                cur = p;
                k = k + 1;
                proof {
                    match sp_class_index_list(bytes@, cur as int, n - k, view_cp_seq(pool@)) {
                        Ok((rest, _)) => crate::mutf8::lemma_push_prepend(out0, v, rest),
                        Err(_) => {},
                    }
                }
            },
        }
    }
    proof {
        assert(out@ + Seq::<u16>::empty() =~= out@);
    }
    Ok((out, cur))
}

/// One exception-table entry of a `Code` attribute.
pub open spec fn sp_exception_entry(b: Seq<u8>, i: int, pool: Seq<SpecConstantPoolInfo>) -> Result<
    (ExceptionTableEntry, int),
    Error,
> {
    if !have(b, i, 2) {
        Err(incomplete(i, 2))
    } else if !have(b, i + 2, 2) {
        Err(incomplete(i + 2, 2))
    } else if !have(b, i + 4, 2) {
        Err(incomplete(i + 4, 2))
    } else {
        match sp_maybe_cp_index_tag(b, i + 6, pool, Tag::Class) {
            Err(e) => Err(wrap_err(Error::ExceptionTableEntry, e)),
            Ok(ct) => Ok(
                (
                    ExceptionTableEntry {
                        start_pc: u16_at(b, i),
                        end_pc: u16_at(b, i + 2),
                        handler_pc: u16_at(b, i + 4),
                        catch_type: ct,
                    },
                    i + 8,
                ),
            ),
        }
    }
}

fn parse_exception_entry(bytes: &Vec<u8>, pos: usize, pool: &Vec<ConstantPoolInfo>) -> (r: Result<
    (ExceptionTableEntry, usize),
    Error,
>)
    ensures
        match r {
            Ok((v, p)) => sp_exception_entry(bytes@, pos as int, view_cp_seq(pool@)) == Ok::<
                (ExceptionTableEntry, int),
                Error,
            >((v, p as int)) && pos < p <= bytes.len(),
            Err(e) => sp_exception_entry(bytes@, pos as int, view_cp_seq(pool@)) == Err::<
                (ExceptionTableEntry, int),
                Error,
            >(e),
        },
{
    let (start_pc, p1) = match rd_u16(bytes, pos) {
        Ok(r) => r,
        Err(e) => {
            return Err(e);
        },
    };
    let (end_pc, p2) = match rd_u16(bytes, p1) {
        Ok(r) => r,
        Err(e) => {
            return Err(e);
        },
    };
    let (handler_pc, p3) = match rd_u16(bytes, p2) {
        Ok(r) => r,
        Err(e) => {
            return Err(e);
        },
    };
    match maybe_cp_index_tag(bytes, p3, pool, Tag::Class) {
        Err(e) => Err(wrap(Error::ExceptionTableEntry, e)),
        Ok((catch_type, p4)) => Ok(
            (ExceptionTableEntry { start_pc, end_pc, handler_pc, catch_type }, p4),
        ),
    }
}

pub open spec fn sp_exc_list(
    b: Seq<u8>,
    i: int,
    n: int,
    pool: Seq<SpecConstantPoolInfo>,
) -> Result<(Seq<ExceptionTableEntry>, int), Error>
    decreases n,
{
    if n <= 0 {
        Ok((Seq::empty(), i))
    } else {
        match sp_exception_entry(b, i, pool) {
            Err(e) => Err(e),
            Ok((x, p)) => match sp_exc_list(b, p, n - 1, pool) {
                Err(e) => Err(e),
                Ok((xs, q)) => Ok((seq![x] + xs, q)),
            },
        }
    }
}

fn parse_exc_list(bytes: &Vec<u8>, pos: usize, n: usize, pool: &Vec<ConstantPoolInfo>) -> (r:
    Result<(Vec<ExceptionTableEntry>, usize), Error>)
    requires
        pos <= bytes@.len(),
    ensures
        match r {
            Ok((v, p)) => sp_exc_list(bytes@, pos as int, n as int, view_cp_seq(pool@)) == Ok::<
                (Seq<ExceptionTableEntry>, int),
                Error,
            >((v@, p as int)) && pos <= p <= bytes.len(),
            Err(e) => sp_exc_list(bytes@, pos as int, n as int, view_cp_seq(pool@)) == Err::<
                (Seq<ExceptionTableEntry>, int),
                Error,
            >(e),
        },
{
    let mut out: Vec<ExceptionTableEntry> = Vec::new();
    let mut cur = pos;
    let mut k: usize = 0;
    while k < n
        invariant
            k <= n,
            pos <= cur <= bytes@.len(),
            sp_exc_list(bytes@, pos as int, n as int, view_cp_seq(pool@)) == (match sp_exc_list(
                bytes@,
                cur as int,
                n - k,
                view_cp_seq(pool@),
            ) {
                Ok((rest, q)) => Ok::<(Seq<ExceptionTableEntry>, int), Error>((out@ + rest, q)),
                Err(e) => Err::<(Seq<ExceptionTableEntry>, int), Error>(e),
            }),
        decreases n - k,
    {
        let ghost out0 = out@;
        match parse_exception_entry(bytes, cur, pool) {
            Err(e) => {
                return Err(e);
            },
            Ok((x, p)) => {
                out.push(x);
                cur = p;
                k = k + 1;
                proof {
                    match sp_exc_list(bytes@, cur as int, n - k, view_cp_seq(pool@)) {
                        Ok((rest, _)) => crate::mutf8::lemma_push_prepend(out0, x, rest),
                        Err(_) => {},
                    }
                }
            },
        }
    }
    proof {
        assert(out@ + Seq::<ExceptionTableEntry>::empty() =~= out@);
    }
    Ok((out, cur))
}

/// One verification-type item of a stack-map frame.
pub open spec fn sp_vti(b: Seq<u8>, i: int, pool: Seq<SpecConstantPoolInfo>) -> Result<
    (VerificationTypeInfo, int),
    Error,
> {
    if !have(b, i, 1) {
        Err(incomplete(i, 1))
    } else {
        let t = u8_at(b, i);
        if t == 0 {
            Ok((VerificationTypeInfo::Top, i + 1))
        } else if t == 1 {
            Ok((VerificationTypeInfo::Integer, i + 1))
        } else if t == 2 {
            Ok((VerificationTypeInfo::Float, i + 1))
        } else if t == 3 {
            Ok((VerificationTypeInfo::Double, i + 1))
        } else if t == 4 {
            Ok((VerificationTypeInfo::Long, i + 1))
        } else if t == 5 {
            Ok((VerificationTypeInfo::Null, i + 1))
        } else if t == 6 {
            Ok((VerificationTypeInfo::UninitializedThis, i + 1))
        } else if t == 7 {
            match sp_cp_index_tag(b, i + 1, pool, Tag::Class) {
                Err(e) => Err(wrap_err(Error::VerificationTypeInfo, e)),
                Ok(ci) => Ok((VerificationTypeInfo::Object { class_index: ci }, i + 3)),
            }
        } else if t == 8 {
            if !have(b, i + 1, 2) {
                Err(incomplete(i + 1, 2))
            } else {
                Ok((VerificationTypeInfo::Uninitialized { offset: u16_at(b, i + 1) }, i + 3))
            }
        } else {
            Err(
                wrap_err(
                    Error::VerificationTypeInfo,
                    Error::UnknownVerificationTypeInfoTag { tag: t },
                ),
            )
        }
    }
}

fn parse_vti(bytes: &Vec<u8>, pos: usize, pool: &Vec<ConstantPoolInfo>) -> (r: Result<
    (VerificationTypeInfo, usize),
    Error,
>)
    ensures
        match r {
            Ok((v, p)) => sp_vti(bytes@, pos as int, view_cp_seq(pool@)) == Ok::<
                (VerificationTypeInfo, int),
                Error,
            >((v, p as int)) && pos < p <= bytes.len(),
            Err(e) => sp_vti(bytes@, pos as int, view_cp_seq(pool@)) == Err::<
                (VerificationTypeInfo, int),
                Error,
            >(e),
        },
{
    let (t, p) = match rd_u8(bytes, pos) {
        Ok(r) => r,
        Err(e) => {
            return Err(e);
        },
    };
    if t == 0 {
        Ok((VerificationTypeInfo::Top, p))
    } else if t == 1 {
        Ok((VerificationTypeInfo::Integer, p))
    } else if t == 2 {
        Ok((VerificationTypeInfo::Float, p))
    } else if t == 3 {
        Ok((VerificationTypeInfo::Double, p))
    } else if t == 4 {
        Ok((VerificationTypeInfo::Long, p))
    } else if t == 5 {
        Ok((VerificationTypeInfo::Null, p))
    } else if t == 6 {
        Ok((VerificationTypeInfo::UninitializedThis, p))
    } else if t == 7 {
        match cp_index_tag(bytes, p, pool, Tag::Class) {
            Err(e) => Err(wrap(Error::VerificationTypeInfo, e)),
            Ok((ci, p2)) => Ok((VerificationTypeInfo::Object { class_index: ci }, p2)),
        }
    } else if t == 8 {
        match rd_u16(bytes, p) {
            Err(e) => Err(e),
            Ok((off, p2)) => Ok((VerificationTypeInfo::Uninitialized { offset: off }, p2)),
        }
    } else {
        Err(wrap(Error::VerificationTypeInfo, Error::UnknownVerificationTypeInfoTag { tag: t }))
    }
}

pub open spec fn sp_vti_list(
    b: Seq<u8>,
    i: int,
    n: int,
    pool: Seq<SpecConstantPoolInfo>,
) -> Result<(Seq<VerificationTypeInfo>, int), Error>
    decreases n,
{
    if n <= 0 {
        Ok((Seq::empty(), i))
    } else {
        match sp_vti(b, i, pool) {
            Err(e) => Err(e),
            Ok((x, p)) => match sp_vti_list(b, p, n - 1, pool) {
                Err(e) => Err(e),
                Ok((xs, q)) => Ok((seq![x] + xs, q)),
            },
        }
    }
}

fn parse_vti_list(bytes: &Vec<u8>, pos: usize, n: usize, pool: &Vec<ConstantPoolInfo>) -> (r:
    Result<(Vec<VerificationTypeInfo>, usize), Error>)
    requires
        pos <= bytes@.len(),
    ensures
        match r {
            Ok((v, p)) => sp_vti_list(bytes@, pos as int, n as int, view_cp_seq(pool@)) == Ok::<
                (Seq<VerificationTypeInfo>, int),
                Error,
            >((v@, p as int)) && pos <= p <= bytes.len(),
            Err(e) => sp_vti_list(bytes@, pos as int, n as int, view_cp_seq(pool@)) == Err::<
                (Seq<VerificationTypeInfo>, int),
                Error,
            >(e),
        },
{
    let mut out: Vec<VerificationTypeInfo> = Vec::new();
    let mut cur = pos;
    let mut k: usize = 0;
    while k < n
        invariant
            k <= n,
            pos <= cur <= bytes@.len(),
            sp_vti_list(bytes@, pos as int, n as int, view_cp_seq(pool@)) == (match sp_vti_list(
                bytes@,
                cur as int,
                n - k,
                view_cp_seq(pool@),
            ) {
                Ok((rest, q)) => Ok::<(Seq<VerificationTypeInfo>, int), Error>((out@ + rest, q)),
                Err(e) => Err::<(Seq<VerificationTypeInfo>, int), Error>(e),
            }),
        decreases n - k,
    {
        let ghost out0 = out@;
        match parse_vti(bytes, cur, pool) {
            Err(e) => {
                return Err(e);
            },
            Ok((x, p)) => {
                out.push(x);
                cur = p;
                k = k + 1;
                proof {
                    match sp_vti_list(bytes@, cur as int, n - k, view_cp_seq(pool@)) {
                        Ok((rest, _)) => crate::mutf8::lemma_push_prepend(out0, x, rest),
                        Err(_) => {},
                    }
                }
            },
        }
    }
    proof {
        assert(out@ + Seq::<VerificationTypeInfo>::empty() =~= out@);
    }
    Ok((out, cur))
}

/// One stack-map frame. The tag byte partitions 0-255 into ranges with
/// different shapes; 128-246 are reserved and refused.
pub open spec fn sp_frame(b: Seq<u8>, i: int, pool: Seq<SpecConstantPoolInfo>) -> Result<
    (SpecStackMapFrame, int),
    Error,
> {
    if !have(b, i, 1) {
        Err(incomplete(i, 1))
    } else {
        let t = u8_at(b, i);
        if t <= 63 {
            Ok((SpecStackMapFrame::SameFrame { offset_delta: t }, i + 1))
        } else if t <= 127 {
            match sp_vti(b, i + 1, pool) {
                Err(e) => Err(wrap_err(Error::StackMapFrame, e)),
                Ok((item, p)) => Ok(
                    (
                        SpecStackMapFrame::SameLocals1StackItemFrame {
                            offset_delta: (t - 64) as u8,
                            stack_item: item,
                        },
                        p,
                    ),
                ),
            }
        } else if t <= 246 {
            Err(wrap_err(Error::StackMapFrame, Error::ReservedStackMapFrameTag { tag: t }))
        } else if t == 247 {
            if !have(b, i + 1, 2) {
                Err(incomplete(i + 1, 2))
            } else {
                match sp_vti(b, i + 3, pool) {
                    Err(e) => Err(wrap_err(Error::StackMapFrame, e)),
                    Ok((item, p)) => Ok(
                        (
                            SpecStackMapFrame::SameLocals1StackItemFrameExtended {
                                offset_delta: u16_at(b, i + 1),
                                stack_item: item,
                            },
                            p,
                        ),
                    ),
                }
            }
        } else if t <= 250 {
            if !have(b, i + 1, 2) {
                Err(incomplete(i + 1, 2))
            } else {
                Ok(
                    (
                        SpecStackMapFrame::ChopFrame {
                            offset_delta: u16_at(b, i + 1),
                            num_chopped: (251 - t) as u8,
                        },
                        i + 3,
                    ),
                )
            }
        } else if t == 251 {
            if !have(b, i + 1, 2) {
                Err(incomplete(i + 1, 2))
            } else {
                Ok((SpecStackMapFrame::SameFrameExtended { offset_delta: u16_at(b, i + 1) }, i + 3))
            }
        } else if t <= 254 {
            if !have(b, i + 1, 2) {
                Err(incomplete(i + 1, 2))
            } else {
                match sp_vti_list(b, i + 3, t - 251, pool) {
                    Err(e) => Err(wrap_err(Error::StackMapFrame, e)),
                    Ok((locals, p)) => Ok(
                        (
                            SpecStackMapFrame::AppendFrame {
                                offset_delta: u16_at(b, i + 1),
                                locals,
                            },
                            p,
                        ),
                    ),
                }
            }
        } else {
            if !have(b, i + 1, 2) {
                Err(incomplete(i + 1, 2))
            } else if !have(b, i + 3, 2) {
                Err(incomplete(i + 3, 2))
            } else {
                match sp_vti_list(b, i + 5, u16_at(b, i + 3) as int, pool) {
                    Err(e) => Err(wrap_err(Error::StackMapFrame, e)),
                    Ok((locals, p)) => if !have(b, p, 2) {
                        Err(incomplete(p, 2))
                    } else {
                        match sp_vti_list(b, p + 2, u16_at(b, p) as int, pool) {
                            Err(e) => Err(wrap_err(Error::StackMapFrame, e)),
                            Ok((stack, q)) => Ok(
                                (
                                    SpecStackMapFrame::FullFrame {
                                        offset_delta: u16_at(b, i + 1),
                                        locals,
                                        stack,
                                    },
                                    q,
                                ),
                            ),
                        }
                    },
                }
            }
        }
    }
}

fn parse_frame(bytes: &Vec<u8>, pos: usize, pool: &Vec<ConstantPoolInfo>) -> (r: Result<
    (StackMapFrame, usize),
    Error,
>)
    ensures
        match r {
            Ok((v, p)) => sp_frame(bytes@, pos as int, view_cp_seq(pool@)) == Ok::<
                (SpecStackMapFrame, int),
                Error,
            >((view_frame(v), p as int)) && pos < p <= bytes.len(),
            Err(e) => sp_frame(bytes@, pos as int, view_cp_seq(pool@)) == Err::<
                (SpecStackMapFrame, int),
                Error,
            >(e),
        },
{
    let (t, p) = match rd_u8(bytes, pos) {
        Ok(r) => r,
        Err(e) => {
            return Err(e);
        },
    };
    if t <= 63 {
        Ok((StackMapFrame::SameFrame { offset_delta: t }, p))
    } else if t <= 127 {
        match parse_vti(bytes, p, pool) {
            Err(e) => Err(wrap(Error::StackMapFrame, e)),
            Ok((item, p2)) => Ok(
                (
                    StackMapFrame::SameLocals1StackItemFrame {
                        offset_delta: t - 64,
                        stack_item: item,
                    },
                    p2,
                ),
            ),
        }
    } else if t <= 246 {
        Err(wrap(Error::StackMapFrame, Error::ReservedStackMapFrameTag { tag: t }))
    } else if t == 247 {
        match rd_u16(bytes, p) {
            Err(e) => Err(e),
            Ok((off, p2)) => match parse_vti(bytes, p2, pool) {
                Err(e) => Err(wrap(Error::StackMapFrame, e)),
                Ok((item, p3)) => Ok(
                    (
                        StackMapFrame::SameLocals1StackItemFrameExtended {
                            offset_delta: off,
                            stack_item: item,
                        },
                        p3,
                    ),
                ),
            },
        }
    } else if t <= 250 {
        match rd_u16(bytes, p) {
            Err(e) => Err(e),
            Ok((off, p2)) => Ok(
                (StackMapFrame::ChopFrame { offset_delta: off, num_chopped: 251 - t }, p2),
            ),
        }
    } else if t == 251 {
        match rd_u16(bytes, p) {
            Err(e) => Err(e),
            Ok((off, p2)) => Ok((StackMapFrame::SameFrameExtended { offset_delta: off }, p2)),
        }
    } else if t <= 254 {
        match rd_u16(bytes, p) {
            Err(e) => Err(e),
            Ok((off, p2)) => match parse_vti_list(bytes, p2, (t - 251) as usize, pool) {
                Err(e) => Err(wrap(Error::StackMapFrame, e)),
                Ok((locals, p3)) => Ok(
                    (StackMapFrame::AppendFrame { offset_delta: off, locals }, p3),
                ),
            },
        }
    } else {
        match rd_u16(bytes, p) {
            Err(e) => Err(e),
            Ok((off, p2)) => match rd_u16(bytes, p2) {
                Err(e) => Err(e),
                Ok((num_locals, p3)) => match parse_vti_list(bytes, p3, num_locals as usize, pool) {
                    Err(e) => Err(wrap(Error::StackMapFrame, e)),
                    Ok((locals, p4)) => match rd_u16(bytes, p4) {
                        Err(e) => Err(e),
                        Ok((num_stack, p5)) => match parse_vti_list(
                            bytes,
                            p5,
                            num_stack as usize,
                            pool,
                        ) {
                            Err(e) => Err(wrap(Error::StackMapFrame, e)),
                            Ok((stack, p6)) => Ok(
                                (
                                    StackMapFrame::FullFrame { offset_delta: off, locals, stack },
                                    p6,
                                ),
                            ),
                        },
                    },
                },
            },
        }
    }
}

pub open spec fn sp_frame_list(
    b: Seq<u8>,
    i: int,
    n: int,
    pool: Seq<SpecConstantPoolInfo>,
) -> Result<(Seq<SpecStackMapFrame>, int), Error>
    decreases n,
{
    if n <= 0 {
        Ok((Seq::empty(), i))
    } else {
        match sp_frame(b, i, pool) {
            Err(e) => Err(e),
            Ok((x, p)) => match sp_frame_list(b, p, n - 1, pool) {
                Err(e) => Err(e),
                Ok((xs, q)) => Ok((seq![x] + xs, q)),
            },
        }
    }
}

fn parse_frame_list(bytes: &Vec<u8>, pos: usize, n: usize, pool: &Vec<ConstantPoolInfo>) -> (r:
    Result<(Vec<StackMapFrame>, usize), Error>)
    requires
        pos <= bytes@.len(),
    ensures
        match r {
            Ok((v, p)) => sp_frame_list(bytes@, pos as int, n as int, view_cp_seq(pool@)) == Ok::<
                (Seq<SpecStackMapFrame>, int),
                Error,
            >((view_frame_seq(v@), p as int)) && pos <= p <= bytes.len(),
            Err(e) => sp_frame_list(bytes@, pos as int, n as int, view_cp_seq(pool@)) == Err::<
                (Seq<SpecStackMapFrame>, int),
                Error,
            >(e),
        },
{
    let mut out: Vec<StackMapFrame> = Vec::new();
    let mut cur = pos;
    let mut k: usize = 0;
    while k < n
        invariant
            k <= n,
            pos <= cur <= bytes@.len(),
            sp_frame_list(bytes@, pos as int, n as int, view_cp_seq(pool@)) == (
            match sp_frame_list(bytes@, cur as int, n - k, view_cp_seq(pool@)) {
                Ok((rest, q)) => Ok::<(Seq<SpecStackMapFrame>, int), Error>(
                    (view_frame_seq(out@) + rest, q),
                ),
                Err(e) => Err::<(Seq<SpecStackMapFrame>, int), Error>(e),
            }),
        decreases n - k,
    {
        let ghost out0 = out@;
        match parse_frame(bytes, cur, pool) {
            Err(e) => {
                return Err(e);
            },
            Ok((x, p)) => {
                out.push(x);
                cur = p;
                k = k + 1;
                proof {
                    assert(view_frame_seq(out@) =~= view_frame_seq(out0).push(view_frame(x)));
                    match sp_frame_list(bytes@, cur as int, n - k, view_cp_seq(pool@)) {
                        Ok((rest, _)) => crate::mutf8::lemma_push_prepend(
                            view_frame_seq(out0),
                            view_frame(x),
                            rest,
                        ),
                        Err(_) => {},
                    }
                }
            },
        }
    }
    proof {
        assert(view_frame_seq(out@) + Seq::<SpecStackMapFrame>::empty() =~= view_frame_seq(out@));
    }
    Ok((out, cur))
}

pub open spec fn sp_line_number_info(b: Seq<u8>, i: int) -> Result<(LineNumberInfo, int), Error> {
    if !have(b, i, 2) {
        Err(incomplete(i, 2))
    } else     if !have(b, i + 2, 2) {
        Err(incomplete(i + 2, 2))
    } else {
        Ok(
            (
                LineNumberInfo {
                    start_pc: u16_at(b, i),
                    line_number: u16_at(b, i + 2),
                },
                i + 4,
            ),
        )
    }
}

fn parse_line_number_info(bytes: &Vec<u8>, pos: usize) -> (r: Result<(LineNumberInfo, usize), Error>)
    ensures
        match r {
            Ok((v, p)) => sp_line_number_info(bytes@, pos as int) == Ok::<(LineNumberInfo, int), Error>(
                (v, p as int),
            ) && pos < p <= bytes.len(),
            Err(e) => sp_line_number_info(bytes@, pos as int) == Err::<(LineNumberInfo, int), Error>(e),
        },
{
    let (start_pc, p1) = match rd_u16(bytes, pos) {
        Ok(r) => r,
        Err(e) => {
            return Err(e);
        },
    };
    let (line_number, p2) = match rd_u16(bytes, p1) {
        Ok(r) => r,
        Err(e) => {
            return Err(e);
        },
    };
    Ok((LineNumberInfo { start_pc, line_number }, p2))
}

pub open spec fn sp_line_number_list(b: Seq<u8>, i: int, n: int) -> Result<(Seq<LineNumberInfo>, int), Error>
    decreases n,
{
    if n <= 0 {
        Ok((Seq::empty(), i))
    } else {
        match sp_line_number_info(b, i) {
            Err(e) => Err(e),
            Ok((x, p)) => match sp_line_number_list(b, p, n - 1) {
                Err(e) => Err(e),
                Ok((xs, q)) => Ok((seq![x] + xs, q)),
            },
        }
    }
}

fn parse_line_number_list(bytes: &Vec<u8>, pos: usize, n: usize) -> (r: Result<
    (Vec<LineNumberInfo>, usize),
    Error,
>)
    requires
        pos <= bytes@.len(),
    ensures
        match r {
            Ok((v, p)) => sp_line_number_list(bytes@, pos as int, n as int) == Ok::<
                (Seq<LineNumberInfo>, int),
                Error,
            >((v@, p as int)) && pos <= p <= bytes.len(),
            Err(e) => sp_line_number_list(bytes@, pos as int, n as int) == Err::<
                (Seq<LineNumberInfo>, int),
                Error,
            >(e),
        },
{
    let mut out: Vec<LineNumberInfo> = Vec::new();
    let mut cur = pos;
    let mut k: usize = 0;
    while k < n
        invariant
            k <= n,
            pos <= cur <= bytes@.len(),
            sp_line_number_list(bytes@, pos as int, n as int) == (match sp_line_number_list(
                bytes@,
                cur as int,
                n - k,
            ) {
                Ok((rest, q)) => Ok::<(Seq<LineNumberInfo>, int), Error>((out@ + rest, q)),
                Err(e) => Err::<(Seq<LineNumberInfo>, int), Error>(e),
            }),
        decreases n - k,
    {
        let ghost out0 = out@;
        match parse_line_number_info(bytes, cur) {
            Err(e) => {
                return Err(e);
            },
            Ok((x, p)) => {
                out.push(x);
                cur = p;
                k = k + 1;
                proof {
                    match sp_line_number_list(bytes@, cur as int, n - k) {
                        Ok((rest, _)) => crate::mutf8::lemma_push_prepend(out0, x, rest),
                        Err(_) => {},
                    }
                }
            },
        }
    }
    proof {
        assert(out@ + Seq::<LineNumberInfo>::empty() =~= out@);
    }
    Ok((out, cur))
}

pub open spec fn sp_local_variable_info(b: Seq<u8>, i: int) -> Result<(LocalVariableInfo, int), Error> {
    if !have(b, i, 2) {
        Err(incomplete(i, 2))
    } else     if !have(b, i + 2, 2) {
        Err(incomplete(i + 2, 2))
    } else     if !have(b, i + 4, 2) {
        Err(incomplete(i + 4, 2))
    } else     if !have(b, i + 6, 2) {
        Err(incomplete(i + 6, 2))
    } else     if !have(b, i + 8, 2) {
        Err(incomplete(i + 8, 2))
    } else {
        Ok(
            (
                LocalVariableInfo {
                    start_pc: u16_at(b, i),
                    length: u16_at(b, i + 2),
                    name_index: u16_at(b, i + 4),
                    descriptor_index: u16_at(b, i + 6),
                    index: u16_at(b, i + 8),
                },
                i + 10,
            ),
        )
    }
}

fn parse_local_variable_info(bytes: &Vec<u8>, pos: usize) -> (r: Result<(LocalVariableInfo, usize), Error>)
    ensures
        match r {
            Ok((v, p)) => sp_local_variable_info(bytes@, pos as int) == Ok::<(LocalVariableInfo, int), Error>(
                (v, p as int),
            ) && pos < p <= bytes.len(),
            Err(e) => sp_local_variable_info(bytes@, pos as int) == Err::<(LocalVariableInfo, int), Error>(e),
        },
{
    let (start_pc, p1) = match rd_u16(bytes, pos) {
        Ok(r) => r,
        Err(e) => {
            return Err(e);
        },
    };
    let (length, p2) = match rd_u16(bytes, p1) {
        Ok(r) => r,
        Err(e) => {
            return Err(e);
        },
    };
    let (name_index, p3) = match rd_u16(bytes, p2) {
        Ok(r) => r,
        Err(e) => {
            return Err(e);
        },
    };
    let (descriptor_index, p4) = match rd_u16(bytes, p3) {
        Ok(r) => r,
        Err(e) => {
            return Err(e);
        },
    };
    let (index, p5) = match rd_u16(bytes, p4) {
        Ok(r) => r,
        Err(e) => {
            return Err(e);
        },
    };
    Ok((LocalVariableInfo { start_pc, length, name_index, descriptor_index, index }, p5))
}

pub open spec fn sp_local_variable_list(b: Seq<u8>, i: int, n: int) -> Result<(Seq<LocalVariableInfo>, int), Error>
    decreases n,
{
    if n <= 0 {
        Ok((Seq::empty(), i))
    } else {
        match sp_local_variable_info(b, i) {
            Err(e) => Err(e),
            Ok((x, p)) => match sp_local_variable_list(b, p, n - 1) {
                Err(e) => Err(e),
                Ok((xs, q)) => Ok((seq![x] + xs, q)),
            },
        }
    }
}

fn parse_local_variable_list(bytes: &Vec<u8>, pos: usize, n: usize) -> (r: Result<
    (Vec<LocalVariableInfo>, usize),
    Error,
>)
    requires
        pos <= bytes@.len(),
    ensures
        match r {
            Ok((v, p)) => sp_local_variable_list(bytes@, pos as int, n as int) == Ok::<
                (Seq<LocalVariableInfo>, int),
                Error,
            >((v@, p as int)) && pos <= p <= bytes.len(),
            Err(e) => sp_local_variable_list(bytes@, pos as int, n as int) == Err::<
                (Seq<LocalVariableInfo>, int),
                Error,
            >(e),
        },
{
    let mut out: Vec<LocalVariableInfo> = Vec::new();
    let mut cur = pos;
    let mut k: usize = 0;
    while k < n
        invariant
            k <= n,
            pos <= cur <= bytes@.len(),
            sp_local_variable_list(bytes@, pos as int, n as int) == (match sp_local_variable_list(
                bytes@,
                cur as int,
                n - k,
            ) {
                Ok((rest, q)) => Ok::<(Seq<LocalVariableInfo>, int), Error>((out@ + rest, q)),
                Err(e) => Err::<(Seq<LocalVariableInfo>, int), Error>(e),
            }),
        decreases n - k,
    {
        let ghost out0 = out@;
        match parse_local_variable_info(bytes, cur) {
            Err(e) => {
                return Err(e);
            },
            Ok((x, p)) => {
                out.push(x);
                cur = p;
                k = k + 1;
                proof {
                    match sp_local_variable_list(bytes@, cur as int, n - k) {
                        Ok((rest, _)) => crate::mutf8::lemma_push_prepend(out0, x, rest),
                        Err(_) => {},
                    }
                }
            },
        }
    }
    proof {
        assert(out@ + Seq::<LocalVariableInfo>::empty() =~= out@);
    }
    Ok((out, cur))
}

pub open spec fn sp_local_variable_type_info(b: Seq<u8>, i: int) -> Result<(LocalVariableTypeInfo, int), Error> {
    if !have(b, i, 2) {
        Err(incomplete(i, 2))
    } else     if !have(b, i + 2, 2) {
        Err(incomplete(i + 2, 2))
    } else     if !have(b, i + 4, 2) {
        Err(incomplete(i + 4, 2))
    } else     if !have(b, i + 6, 2) {
        Err(incomplete(i + 6, 2))
    } else     if !have(b, i + 8, 2) {
        Err(incomplete(i + 8, 2))
    } else {
        Ok(
            (
                LocalVariableTypeInfo {
                    start_pc: u16_at(b, i),
                    length: u16_at(b, i + 2),
                    name_index: u16_at(b, i + 4),
                    signature_index: u16_at(b, i + 6),
                    index: u16_at(b, i + 8),
                },
                i + 10,
            ),
        )
    }
}

fn parse_local_variable_type_info(bytes: &Vec<u8>, pos: usize) -> (r: Result<(LocalVariableTypeInfo, usize), Error>)
    ensures
        match r {
            Ok((v, p)) => sp_local_variable_type_info(bytes@, pos as int) == Ok::<(LocalVariableTypeInfo, int), Error>(
                (v, p as int),
            ) && pos < p <= bytes.len(),
            Err(e) => sp_local_variable_type_info(bytes@, pos as int) == Err::<(LocalVariableTypeInfo, int), Error>(e),
        },
{
    let (start_pc, p1) = match rd_u16(bytes, pos) {
        Ok(r) => r,
        Err(e) => {
            return Err(e);
        },
    };
    let (length, p2) = match rd_u16(bytes, p1) {
        Ok(r) => r,
        Err(e) => {
            return Err(e);
        },
    };
    let (name_index, p3) = match rd_u16(bytes, p2) {
        Ok(r) => r,
        Err(e) => {
            return Err(e);
        },
    };
    let (signature_index, p4) = match rd_u16(bytes, p3) {
        Ok(r) => r,
        Err(e) => {
            return Err(e);
        },
    };
    let (index, p5) = match rd_u16(bytes, p4) {
        Ok(r) => r,
        Err(e) => {
            return Err(e);
        },
    };
    Ok((LocalVariableTypeInfo { start_pc, length, name_index, signature_index, index }, p5))
}

pub open spec fn sp_local_variable_type_list(b: Seq<u8>, i: int, n: int) -> Result<(Seq<LocalVariableTypeInfo>, int), Error>
    decreases n,
{
    if n <= 0 {
        Ok((Seq::empty(), i))
    } else {
        match sp_local_variable_type_info(b, i) {
            Err(e) => Err(e),
            Ok((x, p)) => match sp_local_variable_type_list(b, p, n - 1) {
                Err(e) => Err(e),
                Ok((xs, q)) => Ok((seq![x] + xs, q)),
            },
        }
    }
}

fn parse_local_variable_type_list(bytes: &Vec<u8>, pos: usize, n: usize) -> (r: Result<
    (Vec<LocalVariableTypeInfo>, usize),
    Error,
>)
    requires
        pos <= bytes@.len(),
    ensures
        match r {
            Ok((v, p)) => sp_local_variable_type_list(bytes@, pos as int, n as int) == Ok::<
                (Seq<LocalVariableTypeInfo>, int),
                Error,
            >((v@, p as int)) && pos <= p <= bytes.len(),
            Err(e) => sp_local_variable_type_list(bytes@, pos as int, n as int) == Err::<
                (Seq<LocalVariableTypeInfo>, int),
                Error,
            >(e),
        },
{
    let mut out: Vec<LocalVariableTypeInfo> = Vec::new();
    let mut cur = pos;
    let mut k: usize = 0;
    while k < n
        invariant
            k <= n,
            pos <= cur <= bytes@.len(),
            sp_local_variable_type_list(bytes@, pos as int, n as int) == (match sp_local_variable_type_list(
                bytes@,
                cur as int,
                n - k,
            ) {
                Ok((rest, q)) => Ok::<(Seq<LocalVariableTypeInfo>, int), Error>((out@ + rest, q)),
                Err(e) => Err::<(Seq<LocalVariableTypeInfo>, int), Error>(e),
            }),
        decreases n - k,
    {
        let ghost out0 = out@;
        match parse_local_variable_type_info(bytes, cur) {
            Err(e) => {
                return Err(e);
            },
            Ok((x, p)) => {
                out.push(x);
                cur = p;
                k = k + 1;
                proof {
                    match sp_local_variable_type_list(bytes@, cur as int, n - k) {
                        Ok((rest, _)) => crate::mutf8::lemma_push_prepend(out0, x, rest),
                        Err(_) => {},
                    }
                }
            },
        }
    }
    proof {
        assert(out@ + Seq::<LocalVariableTypeInfo>::empty() =~= out@);
    }
    Ok((out, cur))
}

pub open spec fn sp_local_variable_target_info(b: Seq<u8>, i: int) -> Result<(LocalVariableTargetInfo, int), Error> {
    if !have(b, i, 2) {
        Err(incomplete(i, 2))
    } else     if !have(b, i + 2, 2) {
        Err(incomplete(i + 2, 2))
    } else     if !have(b, i + 4, 2) {
        Err(incomplete(i + 4, 2))
    } else {
        Ok(
            (
                LocalVariableTargetInfo {
                    start_pc: u16_at(b, i),
                    length: u16_at(b, i + 2),
                    index: u16_at(b, i + 4),
                },
                i + 6,
            ),
        )
    }
}

fn parse_local_variable_target_info(bytes: &Vec<u8>, pos: usize) -> (r: Result<(LocalVariableTargetInfo, usize), Error>)
    ensures
        match r {
            Ok((v, p)) => sp_local_variable_target_info(bytes@, pos as int) == Ok::<(LocalVariableTargetInfo, int), Error>(
                (v, p as int),
            ) && pos < p <= bytes.len(),
            Err(e) => sp_local_variable_target_info(bytes@, pos as int) == Err::<(LocalVariableTargetInfo, int), Error>(e),
        },
{
    let (start_pc, p1) = match rd_u16(bytes, pos) {
        Ok(r) => r,
        Err(e) => {
            return Err(e);
        },
    };
    let (length, p2) = match rd_u16(bytes, p1) {
        Ok(r) => r,
        Err(e) => {
            return Err(e);
        },
    };
    let (index, p3) = match rd_u16(bytes, p2) {
        Ok(r) => r,
        Err(e) => {
            return Err(e);
        },
    };
    Ok((LocalVariableTargetInfo { start_pc, length, index }, p3))
}

pub open spec fn sp_local_variable_target_list(b: Seq<u8>, i: int, n: int) -> Result<(Seq<LocalVariableTargetInfo>, int), Error>
    decreases n,
{
    if n <= 0 {
        Ok((Seq::empty(), i))
    } else {
        match sp_local_variable_target_info(b, i) {
            Err(e) => Err(e),
            Ok((x, p)) => match sp_local_variable_target_list(b, p, n - 1) {
                Err(e) => Err(e),
                Ok((xs, q)) => Ok((seq![x] + xs, q)),
            },
        }
    }
}

fn parse_local_variable_target_list(bytes: &Vec<u8>, pos: usize, n: usize) -> (r: Result<
    (Vec<LocalVariableTargetInfo>, usize),
    Error,
>)
    requires
        pos <= bytes@.len(),
    ensures
        match r {
            Ok((v, p)) => sp_local_variable_target_list(bytes@, pos as int, n as int) == Ok::<
                (Seq<LocalVariableTargetInfo>, int),
                Error,
            >((v@, p as int)) && pos <= p <= bytes.len(),
            Err(e) => sp_local_variable_target_list(bytes@, pos as int, n as int) == Err::<
                (Seq<LocalVariableTargetInfo>, int),
                Error,
            >(e),
        },
{
    let mut out: Vec<LocalVariableTargetInfo> = Vec::new();
    let mut cur = pos;
    let mut k: usize = 0;
    while k < n
        invariant
            k <= n,
            pos <= cur <= bytes@.len(),
            sp_local_variable_target_list(bytes@, pos as int, n as int) == (match sp_local_variable_target_list(
                bytes@,
                cur as int,
                n - k,
            ) {
                Ok((rest, q)) => Ok::<(Seq<LocalVariableTargetInfo>, int), Error>((out@ + rest, q)),
                Err(e) => Err::<(Seq<LocalVariableTargetInfo>, int), Error>(e),
            }),
        decreases n - k,
    {
        let ghost out0 = out@;
        match parse_local_variable_target_info(bytes, cur) {
            Err(e) => {
                return Err(e);
            },
            Ok((x, p)) => {
                out.push(x);
                cur = p;
                k = k + 1;
                proof {
                    match sp_local_variable_target_list(bytes@, cur as int, n - k) {
                        Ok((rest, _)) => crate::mutf8::lemma_push_prepend(out0, x, rest),
                        Err(_) => {},
                    }
                }
            },
        }
    }
    proof {
        assert(out@ + Seq::<LocalVariableTargetInfo>::empty() =~= out@);
    }
    Ok((out, cur))
}

pub open spec fn sp_type_path_part(b: Seq<u8>, i: int) -> Result<(TypePathPart, int), Error> {
    if !have(b, i, 1) {
        Err(incomplete(i, 1))
    } else     if !have(b, i + 1, 1) {
        Err(incomplete(i + 1, 1))
    } else {
        Ok(
            (
                TypePathPart {
                    type_path_kind: u8_at(b, i),
                    type_argument_index: u8_at(b, i + 1),
                },
                i + 2,
            ),
        )
    }
}

fn parse_type_path_part(bytes: &Vec<u8>, pos: usize) -> (r: Result<(TypePathPart, usize), Error>)
    ensures
        match r {
            Ok((v, p)) => sp_type_path_part(bytes@, pos as int) == Ok::<(TypePathPart, int), Error>(
                (v, p as int),
            ) && pos < p <= bytes.len(),
            Err(e) => sp_type_path_part(bytes@, pos as int) == Err::<(TypePathPart, int), Error>(e),
        },
{
    let (type_path_kind, p1) = match rd_u8(bytes, pos) {
        Ok(r) => r,
        Err(e) => {
            return Err(e);
        },
    };
    let (type_argument_index, p2) = match rd_u8(bytes, p1) {
        Ok(r) => r,
        Err(e) => {
            return Err(e);
        },
    };
    Ok((TypePathPart { type_path_kind, type_argument_index }, p2))
}

pub open spec fn sp_type_path_part_list(b: Seq<u8>, i: int, n: int) -> Result<(Seq<TypePathPart>, int), Error>
    decreases n,
{
    if n <= 0 {
        Ok((Seq::empty(), i))
    } else {
        match sp_type_path_part(b, i) {
            Err(e) => Err(e),
            Ok((x, p)) => match sp_type_path_part_list(b, p, n - 1) {
                Err(e) => Err(e),
                Ok((xs, q)) => Ok((seq![x] + xs, q)),
            },
        }
    }
}

fn parse_type_path_part_list(bytes: &Vec<u8>, pos: usize, n: usize) -> (r: Result<
    (Vec<TypePathPart>, usize),
    Error,
>)
    requires
        pos <= bytes@.len(),
    ensures
        match r {
            Ok((v, p)) => sp_type_path_part_list(bytes@, pos as int, n as int) == Ok::<
                (Seq<TypePathPart>, int),
                Error,
            >((v@, p as int)) && pos <= p <= bytes.len(),
            Err(e) => sp_type_path_part_list(bytes@, pos as int, n as int) == Err::<
                (Seq<TypePathPart>, int),
                Error,
            >(e),
        },
{
    let mut out: Vec<TypePathPart> = Vec::new();
    let mut cur = pos;
    let mut k: usize = 0;
    while k < n
        invariant
            k <= n,
            pos <= cur <= bytes@.len(),
            sp_type_path_part_list(bytes@, pos as int, n as int) == (match sp_type_path_part_list(
                bytes@,
                cur as int,
                n - k,
            ) {
                Ok((rest, q)) => Ok::<(Seq<TypePathPart>, int), Error>((out@ + rest, q)),
                Err(e) => Err::<(Seq<TypePathPart>, int), Error>(e),
            }),
        decreases n - k,
    {
        let ghost out0 = out@;
        match parse_type_path_part(bytes, cur) {
            Err(e) => {
                return Err(e);
            },
            Ok((x, p)) => {
                out.push(x);
                cur = p;
                k = k + 1;
                proof {
                    match sp_type_path_part_list(bytes@, cur as int, n - k) {
                        Ok((rest, _)) => crate::mutf8::lemma_push_prepend(out0, x, rest),
                        Err(_) => {},
                    }
                }
            },
        }
    }
    proof {
        assert(out@ + Seq::<TypePathPart>::empty() =~= out@);
    }
    Ok((out, cur))
}

/// One row of the `InnerClasses` table.
pub open spec fn sp_inner_class(b: Seq<u8>, i: int, pool: Seq<SpecConstantPoolInfo>) -> Result<
    (InnerClass, int),
    Error,
> {
    match sp_cp_index_tag(b, i, pool, Tag::Class) {
        Err(e) => Err(wrap_err(Error::InnerClass, e)),
        Ok(ii) => match sp_maybe_cp_index_tag(b, i + 2, pool, Tag::Class) {
            Err(e) => Err(wrap_err(Error::InnerClass, e)),
            Ok(oi) => match sp_maybe_cp_index_tag(b, i + 4, pool, Tag::Utf8) {
                Err(e) => Err(wrap_err(Error::InnerClass, e)),
                Ok(ni) => if !have(b, i + 6, 2) {
                    Err(incomplete(i + 6, 2))
                } else {
                    Ok(
                        (
                            InnerClass {
                                inner_class_info_index: ii,
                                outer_class_info_index: oi,
                                inner_name_index: ni,
                                inner_class_access_flags: u16_at(b, i + 6),
                            },
                            i + 8,
                        ),
                    )
                },
            },
        },
    }
}

fn parse_inner_class(bytes: &Vec<u8>, pos: usize, pool: &Vec<ConstantPoolInfo>) -> (r: Result<
    (InnerClass, usize),
    Error,
>)
    ensures
        match r {
            Ok((v, p)) => sp_inner_class(bytes@, pos as int, view_cp_seq(pool@)) == Ok::<
                (InnerClass, int),
                Error,
            >((v, p as int)) && pos < p <= bytes.len(),
            Err(e) => sp_inner_class(bytes@, pos as int, view_cp_seq(pool@)) == Err::<
                (InnerClass, int),
                Error,
            >(e),
        },
{
    let (ii, p1) = match cp_index_tag(bytes, pos, pool, Tag::Class) {
        Ok(r) => r,
        Err(e) => {
            return Err(wrap(Error::InnerClass, e));
        },
    };
    let (oi, p2) = match maybe_cp_index_tag(bytes, p1, pool, Tag::Class) {
        Ok(r) => r,
        Err(e) => {
            return Err(wrap(Error::InnerClass, e));
        },
    };
    let (ni, p3) = match maybe_cp_index_tag(bytes, p2, pool, Tag::Utf8) {
        Ok(r) => r,
        Err(e) => {
            return Err(wrap(Error::InnerClass, e));
        },
    };
    let (flags, p4) = match rd_u16(bytes, p3) {
        Ok(r) => r,
        Err(e) => {
            return Err(e);
        },
    };
    Ok(
        (
            InnerClass {
                inner_class_info_index: ii,
                outer_class_info_index: oi,
                inner_name_index: ni,
                inner_class_access_flags: flags,
            },
            p4,
        ),
    )
}

pub open spec fn sp_inner_class_list(
    b: Seq<u8>,
    i: int,
    n: int,
    pool: Seq<SpecConstantPoolInfo>,
) -> Result<(Seq<InnerClass>, int), Error>
    decreases n,
{
    if n <= 0 {
        Ok((Seq::empty(), i))
    } else {
        match sp_inner_class(b, i, pool) {
            Err(e) => Err(e),
            Ok((x, p)) => match sp_inner_class_list(b, p, n - 1, pool) {
                Err(e) => Err(e),
                Ok((xs, q)) => Ok((seq![x] + xs, q)),
            },
        }
    }
}

fn parse_inner_class_list(
    bytes: &Vec<u8>,
    pos: usize,
    n: usize,
    pool: &Vec<ConstantPoolInfo>,
) -> (r: Result<(Vec<InnerClass>, usize), Error>)
    requires
        pos <= bytes@.len(),
    ensures
        match r {
            Ok((v, p)) => sp_inner_class_list(bytes@, pos as int, n as int, view_cp_seq(pool@))
                == Ok::<(Seq<InnerClass>, int), Error>((v@, p as int)) && pos <= p <= bytes.len(),
            Err(e) => sp_inner_class_list(bytes@, pos as int, n as int, view_cp_seq(pool@)) == Err::<
                (Seq<InnerClass>, int),
                Error,
            >(e),
        },
{
    let mut out: Vec<InnerClass> = Vec::new();
    let mut cur = pos;
    let mut k: usize = 0;
    while k < n
        invariant
            k <= n,
            pos <= cur <= bytes@.len(),
            sp_inner_class_list(bytes@, pos as int, n as int, view_cp_seq(pool@)) == (
            match sp_inner_class_list(bytes@, cur as int, n - k, view_cp_seq(pool@)) {
                Ok((rest, q)) => Ok::<(Seq<InnerClass>, int), Error>((out@ + rest, q)),
                Err(e) => Err::<(Seq<InnerClass>, int), Error>(e),
            }),
        decreases n - k,
    {
        let ghost out0 = out@;
        match parse_inner_class(bytes, cur, pool) {
            Err(e) => {
                return Err(e);
            },
            Ok((x, p)) => {
                out.push(x);
                cur = p;
                k = k + 1;
                proof {
                    match sp_inner_class_list(bytes@, cur as int, n - k, view_cp_seq(pool@)) {
                        Ok((rest, _)) => crate::mutf8::lemma_push_prepend(out0, x, rest),
                        Err(_) => {},
                    }
                }
            },
        }
    }
    proof {
        assert(out@ + Seq::<InnerClass>::empty() =~= out@);
    }
    Ok((out, cur))
}

/// One row of the `MethodParameters` table.
pub open spec fn sp_method_parameter(b: Seq<u8>, i: int, pool: Seq<SpecConstantPoolInfo>) -> Result<
    (Parameter, int),
    Error,
> {
    match sp_maybe_cp_index_tag(b, i, pool, Tag::Utf8) {
        Err(e) => Err(wrap_err(Error::MethodParameter, e)),
        Ok(ni) => if !have(b, i + 2, 2) {
            Err(incomplete(i + 2, 2))
        } else {
            Ok((Parameter { name_index: ni, access_flags: u16_at(b, i + 2) }, i + 4))
        },
    }
}

fn parse_method_parameter(bytes: &Vec<u8>, pos: usize, pool: &Vec<ConstantPoolInfo>) -> (r: Result<
    (Parameter, usize),
    Error,
>)
    ensures
        match r {
            Ok((v, p)) => sp_method_parameter(bytes@, pos as int, view_cp_seq(pool@)) == Ok::<
                (Parameter, int),
                Error,
            >((v, p as int)) && pos < p <= bytes.len(),
            Err(e) => sp_method_parameter(bytes@, pos as int, view_cp_seq(pool@)) == Err::<
                (Parameter, int),
                Error,
            >(e),
        },
{
    let (ni, p1) = match maybe_cp_index_tag(bytes, pos, pool, Tag::Utf8) {
        Ok(r) => r,
        Err(e) => {
            return Err(wrap(Error::MethodParameter, e));
        },
    };
    let (flags, p2) = match rd_u16(bytes, p1) {
        Ok(r) => r,
        Err(e) => {
            return Err(e);
        },
    };
    Ok((Parameter { name_index: ni, access_flags: flags }, p2))
}

pub open spec fn sp_method_parameter_list(
    b: Seq<u8>,
    i: int,
    n: int,
    pool: Seq<SpecConstantPoolInfo>,
) -> Result<(Seq<Parameter>, int), Error>
    decreases n,
{
    if n <= 0 {
        Ok((Seq::empty(), i))
    } else {
        match sp_method_parameter(b, i, pool) {
            Err(e) => Err(e),
            Ok((x, p)) => match sp_method_parameter_list(b, p, n - 1, pool) {
                Err(e) => Err(e),
                Ok((xs, q)) => Ok((seq![x] + xs, q)),
            },
        }
    }
}

fn parse_method_parameter_list(
    bytes: &Vec<u8>,
    pos: usize,
    n: usize,
    pool: &Vec<ConstantPoolInfo>,
) -> (r: Result<(Vec<Parameter>, usize), Error>)
    requires
        pos <= bytes@.len(),
    ensures
        match r {
            Ok((v, p)) => sp_method_parameter_list(bytes@, pos as int, n as int, view_cp_seq(pool@))
                == Ok::<(Seq<Parameter>, int), Error>((v@, p as int)) && pos <= p <= bytes.len(),
            Err(e) => sp_method_parameter_list(bytes@, pos as int, n as int, view_cp_seq(pool@))
                == Err::<(Seq<Parameter>, int), Error>(e),
        },
{
    let mut out: Vec<Parameter> = Vec::new();
    let mut cur = pos;
    let mut k: usize = 0;
    while k < n
        invariant
            k <= n,
            pos <= cur <= bytes@.len(),
            sp_method_parameter_list(bytes@, pos as int, n as int, view_cp_seq(pool@)) == (
            match sp_method_parameter_list(bytes@, cur as int, n - k, view_cp_seq(pool@)) {
                Ok((rest, q)) => Ok::<(Seq<Parameter>, int), Error>((out@ + rest, q)),
                Err(e) => Err::<(Seq<Parameter>, int), Error>(e),
            }),
        decreases n - k,
    {
        let ghost out0 = out@;
        match parse_method_parameter(bytes, cur, pool) {
            Err(e) => {
                return Err(e);
            },
            Ok((x, p)) => {
                out.push(x);
                cur = p;
                k = k + 1;
                proof {
                    match sp_method_parameter_list(bytes@, cur as int, n - k, view_cp_seq(pool@)) {
                        Ok((rest, _)) => crate::mutf8::lemma_push_prepend(out0, x, rest),
                        Err(_) => {},
                    }
                }
            },
        }
    }
    proof {
        assert(out@ + Seq::<Parameter>::empty() =~= out@);
    }
    Ok((out, cur))
}

/// One element value of an annotation: a tagged union whose tag byte is the
/// ASCII letter of the value's kind; annotation values and arrays nest.
pub open spec fn sp_element_value(b: Seq<u8>, i: int, pool: Seq<SpecConstantPoolInfo>) -> Result<
    (SpecElementValue, int),
    Error,
>
    decreases b.len() - i, 0int,
{
    if !have(b, i, 1) {
        Err(incomplete(i, 1))
    } else {
        let t = u8_at(b, i);
        if t == 66 {
            match sp_cp_index_tag(b, i + 1, pool, Tag::Integer) {
                Err(e) => Err(e),
                Ok(ci) => Ok((SpecElementValue::Byte { const_value_index: ci }, i + 3)),
            }
        } else if t == 67 {
            match sp_cp_index_tag(b, i + 1, pool, Tag::Integer) {
                Err(e) => Err(e),
                Ok(ci) => Ok((SpecElementValue::Char { const_value_index: ci }, i + 3)),
            }
        } else if t == 68 {
            match sp_cp_index_tag(b, i + 1, pool, Tag::Double) {
                Err(e) => Err(e),
                Ok(ci) => Ok((SpecElementValue::Double { const_value_index: ci }, i + 3)),
            }
        } else if t == 70 {
            match sp_cp_index_tag(b, i + 1, pool, Tag::Float) {
                Err(e) => Err(e),
                Ok(ci) => Ok((SpecElementValue::Float { const_value_index: ci }, i + 3)),
            }
        } else if t == 73 {
            match sp_cp_index_tag(b, i + 1, pool, Tag::Integer) {
                Err(e) => Err(e),
                Ok(ci) => Ok((SpecElementValue::Int { const_value_index: ci }, i + 3)),
            }
        } else if t == 74 {
            match sp_cp_index_tag(b, i + 1, pool, Tag::Long) {
                Err(e) => Err(e),
                Ok(ci) => Ok((SpecElementValue::Long { const_value_index: ci }, i + 3)),
            }
        } else if t == 83 {
            match sp_cp_index_tag(b, i + 1, pool, Tag::Integer) {
                Err(e) => Err(e),
                Ok(ci) => Ok((SpecElementValue::Short { const_value_index: ci }, i + 3)),
            }
        } else if t == 90 {
            match sp_cp_index_tag(b, i + 1, pool, Tag::Integer) {
                Err(e) => Err(e),
                Ok(ci) => Ok((SpecElementValue::Boolean { const_value_index: ci }, i + 3)),
            }
        } else if t == 115 {
            match sp_cp_index_tag(b, i + 1, pool, Tag::Utf8) {
                Err(e) => Err(e),
                Ok(ci) => Ok((SpecElementValue::String { const_value_index: ci }, i + 3)),
            }
        } else if t == 101 {
            match sp_cp_index_tag(b, i + 1, pool, Tag::Utf8) {
                Err(e) => Err(e),
                Ok(tni) => match sp_cp_index_tag(b, i + 3, pool, Tag::Utf8) {
                    Err(e) => Err(e),
                    Ok(cni) => Ok(
                        (
                            SpecElementValue::Enum {
                                type_name_index: tni,
                                const_name_index: cni,
                            },
                            i + 5,
                        ),
                    ),
                },
            }
        } else if t == 99 {
            match sp_cp_index_tag(b, i + 1, pool, Tag::Utf8) {
                Err(e) => Err(e),
                Ok(ci) => Ok((SpecElementValue::Class { class_info_index: ci }, i + 3)),
            }
        } else if t == 64 {
            match sp_annotation(b, i + 1, pool) {
                Err(e) => Err(e),
                Ok((a, p)) => Ok((SpecElementValue::Annotation { annotation_value: a }, p)),
            }
        } else if t == 91 {
            if !have(b, i + 1, 2) {
                Err(incomplete(i + 1, 2))
            } else {
                let n = u16_at(b, i + 1);
                match sp_ev_list(b, i + 3, n as int, pool) {
                    Err(e) => Err(wrap_err(Error::ElementValueArray { num_values: n as usize }, e)),
                    Ok((vs, p)) => Ok((SpecElementValue::Array { values: vs }, p)),
                }
            }
        } else {
            Err(Error::UnknownElementValueTag { tag: t })
        }
    }
}

pub open spec fn sp_ev_list(b: Seq<u8>, i: int, n: int, pool: Seq<SpecConstantPoolInfo>) -> Result<
    (Seq<SpecElementValue>, int),
    Error,
>
    decreases b.len() - i, n,
{
    if n <= 0 {
        Ok((Seq::empty(), i))
    } else {
        match sp_element_value(b, i, pool) {
            Err(e) => Err(e),
            Ok((x, p)) => if !(i < p && p <= b.len()) {
                // unreachable: every element value consumes its tag byte
                Err(incomplete(i, 1))
            } else {
                match sp_ev_list(b, p, n - 1, pool) {
                    Err(e) => Err(e),
                    Ok((xs, q)) => Ok((seq![x] + xs, q)),
                }
            },
        }
    }
}

/// One name-value pair of an annotation.
pub open spec fn sp_pair(b: Seq<u8>, i: int, pool: Seq<SpecConstantPoolInfo>) -> Result<
    (SpecElementValuePair, int),
    Error,
>
    decreases b.len() - i, 0int,
{
    match sp_cp_index_tag(b, i, pool, Tag::Utf8) {
        Err(e) => Err(wrap_err(Error::ElementValuePair, e)),
        Ok(eni) => match sp_element_value(b, i + 2, pool) {
            Err(e) => Err(wrap_err(Error::ElementValuePair, e)),
            Ok((v, p)) => Ok((SpecElementValuePair { element_name_index: eni, value: v }, p)),
        },
    }
}

pub open spec fn sp_pair_list(
    b: Seq<u8>,
    i: int,
    n: int,
    pool: Seq<SpecConstantPoolInfo>,
) -> Result<(Seq<SpecElementValuePair>, int), Error>
    decreases b.len() - i, n,
{
    if n <= 0 {
        Ok((Seq::empty(), i))
    } else {
        match sp_pair(b, i, pool) {
            Err(e) => Err(e),
            Ok((x, p)) => if !(i < p && p <= b.len()) {
                // unreachable: every pair consumes its name index
                Err(incomplete(i, 1))
            } else {
                match sp_pair_list(b, p, n - 1, pool) {
                    Err(e) => Err(e),
                    Ok((xs, q)) => Ok((seq![x] + xs, q)),
                }
            },
        }
    }
}

/// The counted block of name-value pairs inside an annotation.
pub open spec fn sp_pair_block(b: Seq<u8>, i: int, pool: Seq<SpecConstantPoolInfo>) -> Result<
    (Seq<SpecElementValuePair>, int),
    Error,
>
    decreases b.len() - i, 0int,
{
    if !have(b, i, 2) {
        Err(incomplete(i, 2))
    } else {
        let n = u16_at(b, i);
        match sp_pair_list(b, i + 2, n as int, pool) {
            Err(e) => Err(
                wrap_err(Error::ElementValuePairs { num_element_value_pairs: n as usize }, e),
            ),
            Ok((xs, p)) => Ok((xs, p)),
        }
    }
}

/// One annotation: a type index and its name-value pairs.
pub open spec fn sp_annotation(b: Seq<u8>, i: int, pool: Seq<SpecConstantPoolInfo>) -> Result<
    (SpecAnnotation, int),
    Error,
>
    decreases b.len() - i, 0int,
{
    match sp_cp_index_tag(b, i, pool, Tag::Utf8) {
        Err(e) => Err(e),
        Ok(ti) => match sp_pair_block(b, i + 2, pool) {
            Err(e) => Err(e),
            Ok((ps, p)) => Ok((SpecAnnotation { type_index: ti, element_value_pairs: ps }, p)),
        },
    }
}

fn parse_element_value(bytes: &Vec<u8>, pos: usize, pool: &Vec<ConstantPoolInfo>) -> (r: Result<
    (ElementValue, usize),
    Error,
>)
    ensures
        match r {
            Ok((v, p)) => sp_element_value(bytes@, pos as int, view_cp_seq(pool@)) == Ok::<
                (SpecElementValue, int),
                Error,
            >((view_element_value(v), p as int)) && pos < p <= bytes.len(),
            Err(e) => sp_element_value(bytes@, pos as int, view_cp_seq(pool@)) == Err::<
                (SpecElementValue, int),
                Error,
            >(e),
        },
    decreases bytes@.len() - pos, 0int,
{
    let (t, p) = match rd_u8(bytes, pos) {
        Ok(r) => r,
        Err(e) => {
            return Err(e);
        },
    };
    if t == 66 {
        match cp_index_tag(bytes, p, pool, Tag::Integer) {
            Err(e) => Err(e),
            Ok((ci, p2)) => Ok((ElementValue::Byte { const_value_index: ci }, p2)),
        }
    } else if t == 67 {
        match cp_index_tag(bytes, p, pool, Tag::Integer) {
            Err(e) => Err(e),
            Ok((ci, p2)) => Ok((ElementValue::Char { const_value_index: ci }, p2)),
        }
    } else if t == 68 {
        match cp_index_tag(bytes, p, pool, Tag::Double) {
            Err(e) => Err(e),
            Ok((ci, p2)) => Ok((ElementValue::Double { const_value_index: ci }, p2)),
        }
    } else if t == 70 {
        match cp_index_tag(bytes, p, pool, Tag::Float) {
            Err(e) => Err(e),
            Ok((ci, p2)) => Ok((ElementValue::Float { const_value_index: ci }, p2)),
        }
    } else if t == 73 {
        match cp_index_tag(bytes, p, pool, Tag::Integer) {
            Err(e) => Err(e),
            Ok((ci, p2)) => Ok((ElementValue::Int { const_value_index: ci }, p2)),
        }
    } else if t == 74 {
        match cp_index_tag(bytes, p, pool, Tag::Long) {
            Err(e) => Err(e),
            Ok((ci, p2)) => Ok((ElementValue::Long { const_value_index: ci }, p2)),
        }
    } else if t == 83 {
        match cp_index_tag(bytes, p, pool, Tag::Integer) {
            Err(e) => Err(e),
            Ok((ci, p2)) => Ok((ElementValue::Short { const_value_index: ci }, p2)),
        }
    } else if t == 90 {
        match cp_index_tag(bytes, p, pool, Tag::Integer) {
            Err(e) => Err(e),
            Ok((ci, p2)) => Ok((ElementValue::Boolean { const_value_index: ci }, p2)),
        }
    } else if t == 115 {
        match cp_index_tag(bytes, p, pool, Tag::Utf8) {
            Err(e) => Err(e),
            Ok((ci, p2)) => Ok((ElementValue::String { const_value_index: ci }, p2)),
        }
    } else if t == 101 {
        match cp_index_tag(bytes, p, pool, Tag::Utf8) {
            Err(e) => Err(e),
            Ok((tni, p2)) => match cp_index_tag(bytes, p2, pool, Tag::Utf8) {
                Err(e) => Err(e),
                Ok((cni, p3)) => Ok(
                    (ElementValue::Enum { type_name_index: tni, const_name_index: cni }, p3),
                ),
            },
        }
    } else if t == 99 {
        match cp_index_tag(bytes, p, pool, Tag::Utf8) {
            Err(e) => Err(e),
            Ok((ci, p2)) => Ok((ElementValue::Class { class_info_index: ci }, p2)),
        }
    } else if t == 64 {
        match parse_annotation(bytes, p, pool) {
            Err(e) => Err(e),
            Ok((a, p2)) => Ok((ElementValue::Annotation { annotation_value: a }, p2)),
        }
    } else if t == 91 {
        match rd_u16(bytes, p) {
            Err(e) => Err(e),
            Ok((n, p2)) => match parse_ev_list(bytes, p2, n as usize, pool) {
                Err(e) => Err(wrap(Error::ElementValueArray { num_values: n as usize }, e)),
                Ok((vs, p3)) => Ok((ElementValue::Array { values: vs }, p3)),
            },
        }
    } else {
        Err(Error::UnknownElementValueTag { tag: t })
    }
}

fn parse_ev_list(bytes: &Vec<u8>, pos: usize, n: usize, pool: &Vec<ConstantPoolInfo>) -> (r: Result<
    (Vec<ElementValue>, usize),
    Error,
>)
    requires
        pos <= bytes@.len(),
    ensures
        match r {
            Ok((v, p)) => sp_ev_list(bytes@, pos as int, n as int, view_cp_seq(pool@)) == Ok::<
                (Seq<SpecElementValue>, int),
                Error,
            >((view_element_value_seq(v@), p as int)) && pos <= p <= bytes.len(),
            Err(e) => sp_ev_list(bytes@, pos as int, n as int, view_cp_seq(pool@)) == Err::<
                (Seq<SpecElementValue>, int),
                Error,
            >(e),
        },
    decreases bytes@.len() - pos, n,
{
    let mut out: Vec<ElementValue> = Vec::new();
    let mut cur = pos;
    let mut k: usize = 0;
    while k < n
        invariant
            k <= n,
            pos <= cur <= bytes@.len(),
            sp_ev_list(bytes@, pos as int, n as int, view_cp_seq(pool@)) == (match sp_ev_list(
                bytes@,
                cur as int,
                n - k,
                view_cp_seq(pool@),
            ) {
                Ok((rest, q)) => Ok::<(Seq<SpecElementValue>, int), Error>(
                    (view_element_value_seq(out@) + rest, q),
                ),
                Err(e) => Err::<(Seq<SpecElementValue>, int), Error>(e),
            }),
        decreases n - k,
    {
        let ghost out0 = out@;
        match parse_element_value(bytes, cur, pool) {
            Err(e) => {
                return Err(e);
            },
            Ok((x, p)) => {
                out.push(x);
                cur = p;
                k = k + 1;
                proof {
                    assert(out@.drop_last() =~= out0);
                    match sp_ev_list(bytes@, cur as int, n - k, view_cp_seq(pool@)) {
                        Ok((rest, _)) => crate::mutf8::lemma_push_prepend(
                            view_element_value_seq(out0),
                            view_element_value(x),
                            rest,
                        ),
                        Err(_) => {},
                    }
                }
            },
        }
    }
    proof {
        assert(view_element_value_seq(out@) + Seq::<SpecElementValue>::empty()
            =~= view_element_value_seq(out@));
    }
    Ok((out, cur))
}

fn parse_pair(bytes: &Vec<u8>, pos: usize, pool: &Vec<ConstantPoolInfo>) -> (r: Result<
    (ElementValuePair, usize),
    Error,
>)
    ensures
        match r {
            Ok((v, p)) => sp_pair(bytes@, pos as int, view_cp_seq(pool@)) == Ok::<
                (SpecElementValuePair, int),
                Error,
            >((view_element_value_pair(v), p as int)) && pos < p <= bytes.len(),
            Err(e) => sp_pair(bytes@, pos as int, view_cp_seq(pool@)) == Err::<
                (SpecElementValuePair, int),
                Error,
            >(e),
        },
    decreases bytes@.len() - pos, 0int,
{
    let (eni, p1) = match cp_index_tag(bytes, pos, pool, Tag::Utf8) {
        Ok(r) => r,
        Err(e) => {
            return Err(wrap(Error::ElementValuePair, e));
        },
    };
    match parse_element_value(bytes, p1, pool) {
        Err(e) => Err(wrap(Error::ElementValuePair, e)),
        Ok((v, p2)) => Ok((ElementValuePair { element_name_index: eni, value: v }, p2)),
    }
}

fn parse_pair_list(bytes: &Vec<u8>, pos: usize, n: usize, pool: &Vec<ConstantPoolInfo>) -> (r:
    Result<(Vec<ElementValuePair>, usize), Error>)
    requires
        pos <= bytes@.len(),
    ensures
        match r {
            Ok((v, p)) => sp_pair_list(bytes@, pos as int, n as int, view_cp_seq(pool@)) == Ok::<
                (Seq<SpecElementValuePair>, int),
                Error,
            >((view_pair_seq(v@), p as int)) && pos <= p <= bytes.len(),
            Err(e) => sp_pair_list(bytes@, pos as int, n as int, view_cp_seq(pool@)) == Err::<
                (Seq<SpecElementValuePair>, int),
                Error,
            >(e),
        },
    decreases bytes@.len() - pos, n,
{
    let mut out: Vec<ElementValuePair> = Vec::new();
    let mut cur = pos;
    let mut k: usize = 0;
    while k < n
        invariant
            k <= n,
            pos <= cur <= bytes@.len(),
            sp_pair_list(bytes@, pos as int, n as int, view_cp_seq(pool@)) == (match sp_pair_list(
                bytes@,
                cur as int,
                n - k,
                view_cp_seq(pool@),
            ) {
                Ok((rest, q)) => Ok::<(Seq<SpecElementValuePair>, int), Error>(
                    (view_pair_seq(out@) + rest, q),
                ),
                Err(e) => Err::<(Seq<SpecElementValuePair>, int), Error>(e),
            }),
        decreases n - k,
    {
        let ghost out0 = out@;
        match parse_pair(bytes, cur, pool) {
            Err(e) => {
                return Err(e);
            },
            Ok((x, p)) => {
                out.push(x);
                cur = p;
                k = k + 1;
                proof {
                    assert(out@.drop_last() =~= out0);
                    match sp_pair_list(bytes@, cur as int, n - k, view_cp_seq(pool@)) {
                        Ok((rest, _)) => crate::mutf8::lemma_push_prepend(
                            view_pair_seq(out0),
                            view_element_value_pair(x),
                            rest,
                        ),
                        Err(_) => {},
                    }
                }
            },
        }
    }
    proof {
        assert(view_pair_seq(out@) + Seq::<SpecElementValuePair>::empty() =~= view_pair_seq(out@));
    }
    Ok((out, cur))
}

fn parse_pair_block(bytes: &Vec<u8>, pos: usize, pool: &Vec<ConstantPoolInfo>) -> (r: Result<
    (Vec<ElementValuePair>, usize),
    Error,
>)
    ensures
        match r {
            Ok((v, p)) => sp_pair_block(bytes@, pos as int, view_cp_seq(pool@)) == Ok::<
                (Seq<SpecElementValuePair>, int),
                Error,
            >((view_pair_seq(v@), p as int)) && pos < p <= bytes.len(),
            Err(e) => sp_pair_block(bytes@, pos as int, view_cp_seq(pool@)) == Err::<
                (Seq<SpecElementValuePair>, int),
                Error,
            >(e),
        },
    decreases bytes@.len() - pos, 0int,
{
    let (n, p1) = match rd_u16(bytes, pos) {
        Ok(r) => r,
        Err(e) => {
            return Err(e);
        },
    };
    match parse_pair_list(bytes, p1, n as usize, pool) {
        Err(e) => Err(wrap(Error::ElementValuePairs { num_element_value_pairs: n as usize }, e)),
        Ok((xs, p2)) => Ok((xs, p2)),
    }
}

fn parse_annotation(bytes: &Vec<u8>, pos: usize, pool: &Vec<ConstantPoolInfo>) -> (r: Result<
    (Annotation, usize),
    Error,
>)
    ensures
        match r {
            Ok((v, p)) => sp_annotation(bytes@, pos as int, view_cp_seq(pool@)) == Ok::<
                (SpecAnnotation, int),
                Error,
            >((view_annotation(v), p as int)) && pos < p <= bytes.len(),
            Err(e) => sp_annotation(bytes@, pos as int, view_cp_seq(pool@)) == Err::<
                (SpecAnnotation, int),
                Error,
            >(e),
        },
    decreases bytes@.len() - pos, 0int,
{
    let (ti, p1) = match cp_index_tag(bytes, pos, pool, Tag::Utf8) {
        Ok(r) => r,
        Err(e) => {
            return Err(e);
        },
    };
    match parse_pair_block(bytes, p1, pool) {
        Err(e) => Err(e),
        Ok((ps, p2)) => Ok((Annotation { type_index: ti, element_value_pairs: ps }, p2)),
    }
}

pub open spec fn sp_annotation_list(
    b: Seq<u8>,
    i: int,
    n: int,
    pool: Seq<SpecConstantPoolInfo>,
) -> Result<(Seq<SpecAnnotation>, int), Error>
    decreases n,
{
    if n <= 0 {
        Ok((Seq::empty(), i))
    } else {
        match sp_annotation(b, i, pool) {
            Err(e) => Err(e),
            Ok((x, p)) => match sp_annotation_list(b, p, n - 1, pool) {
                Err(e) => Err(e),
                Ok((xs, q)) => Ok((seq![x] + xs, q)),
            },
        }
    }
}

fn parse_annotation_list(
    bytes: &Vec<u8>,
    pos: usize,
    n: usize,
    pool: &Vec<ConstantPoolInfo>,
) -> (r: Result<(Vec<Annotation>, usize), Error>)
    requires
        pos <= bytes@.len(),
    ensures
        match r {
            Ok((v, p)) => sp_annotation_list(bytes@, pos as int, n as int, view_cp_seq(pool@))
                == Ok::<(Seq<SpecAnnotation>, int), Error>((view_annotation_seq(v@), p as int))
                && pos <= p <= bytes.len(),
            Err(e) => sp_annotation_list(bytes@, pos as int, n as int, view_cp_seq(pool@)) == Err::<
                (Seq<SpecAnnotation>, int),
                Error,
            >(e),
        },
{
    let mut out: Vec<Annotation> = Vec::new();
    let mut cur = pos;
    let mut k: usize = 0;
    while k < n
        invariant
            k <= n,
            pos <= cur <= bytes@.len(),
            sp_annotation_list(bytes@, pos as int, n as int, view_cp_seq(pool@)) == (
            match sp_annotation_list(bytes@, cur as int, n - k, view_cp_seq(pool@)) {
                Ok((rest, q)) => Ok::<(Seq<SpecAnnotation>, int), Error>(
                    (view_annotation_seq(out@) + rest, q),
                ),
                Err(e) => Err::<(Seq<SpecAnnotation>, int), Error>(e),
            }),
        decreases n - k,
    {
        let ghost out0 = out@;
        match parse_annotation(bytes, cur, pool) {
            Err(e) => {
                return Err(e);
            },
            Ok((x, p)) => {
                out.push(x);
                cur = p;
                k = k + 1;
                proof {
                    assert(out@.drop_last() =~= out0);
                    match sp_annotation_list(bytes@, cur as int, n - k, view_cp_seq(pool@)) {
                        Ok((rest, _)) => crate::mutf8::lemma_push_prepend(
                            view_annotation_seq(out0),
                            view_annotation(x),
                            rest,
                        ),
                        Err(_) => {},
                    }
                }
            },
        }
    }
    proof {
        assert(view_annotation_seq(out@) + Seq::<SpecAnnotation>::empty() =~= view_annotation_seq(
            out@,
        ));
    }
    Ok((out, cur))
}

/// The counted block of annotations that the runtime-annotation attributes
/// hold.
pub open spec fn sp_annotation_block(b: Seq<u8>, i: int, pool: Seq<SpecConstantPoolInfo>) -> Result<
    (Seq<SpecAnnotation>, int),
    Error,
> {
    if !have(b, i, 2) {
        Err(incomplete(i, 2))
    } else {
        let n = u16_at(b, i);
        match sp_annotation_list(b, i + 2, n as int, pool) {
            Err(e) => Err(wrap_err(Error::Annotations { num_annotations: n as usize }, e)),
            Ok((xs, p)) => Ok((xs, p)),
        }
    }
}

fn parse_annotation_block(bytes: &Vec<u8>, pos: usize, pool: &Vec<ConstantPoolInfo>) -> (r: Result<
    (Vec<Annotation>, usize),
    Error,
>)
    ensures
        match r {
            Ok((v, p)) => sp_annotation_block(bytes@, pos as int, view_cp_seq(pool@)) == Ok::<
                (Seq<SpecAnnotation>, int),
                Error,
            >((view_annotation_seq(v@), p as int)) && pos < p <= bytes.len(),
            Err(e) => sp_annotation_block(bytes@, pos as int, view_cp_seq(pool@)) == Err::<
                (Seq<SpecAnnotation>, int),
                Error,
            >(e),
        },
{
    let (n, p1) = match rd_u16(bytes, pos) {
        Ok(r) => r,
        Err(e) => {
            return Err(e);
        },
    };
    match parse_annotation_list(bytes, p1, n as usize, pool) {
        Err(e) => Err(wrap(Error::Annotations { num_annotations: n as usize }, e)),
        Ok((xs, p2)) => Ok((xs, p2)),
    }
}

pub open spec fn sp_annotation_block_list(
    b: Seq<u8>,
    i: int,
    n: int,
    pool: Seq<SpecConstantPoolInfo>,
) -> Result<(Seq<Seq<SpecAnnotation>>, int), Error>
    decreases n,
{
    if n <= 0 {
        Ok((Seq::empty(), i))
    } else {
        match sp_annotation_block(b, i, pool) {
            Err(e) => Err(e),
            Ok((x, p)) => match sp_annotation_block_list(b, p, n - 1, pool) {
                Err(e) => Err(e),
                Ok((xs, q)) => Ok((seq![x] + xs, q)),
            },
        }
    }
}

fn parse_annotation_block_list(
    bytes: &Vec<u8>,
    pos: usize,
    n: usize,
    pool: &Vec<ConstantPoolInfo>,
) -> (r: Result<(Vec<Vec<Annotation>>, usize), Error>)
    requires
        pos <= bytes@.len(),
    ensures
        match r {
            Ok((v, p)) => sp_annotation_block_list(bytes@, pos as int, n as int, view_cp_seq(pool@))
                == Ok::<(Seq<Seq<SpecAnnotation>>, int), Error>(
                (view_annotation_seq_seq(v@), p as int),
            ) && pos <= p <= bytes.len(),
            Err(e) => sp_annotation_block_list(bytes@, pos as int, n as int, view_cp_seq(pool@))
                == Err::<(Seq<Seq<SpecAnnotation>>, int), Error>(e),
        },
{
    let mut out: Vec<Vec<Annotation>> = Vec::new();
    let mut cur = pos;
    let mut k: usize = 0;
    while k < n
        invariant
            k <= n,
            pos <= cur <= bytes@.len(),
            sp_annotation_block_list(bytes@, pos as int, n as int, view_cp_seq(pool@)) == (
            match sp_annotation_block_list(bytes@, cur as int, n - k, view_cp_seq(pool@)) {
                Ok((rest, q)) => Ok::<(Seq<Seq<SpecAnnotation>>, int), Error>(
                    (view_annotation_seq_seq(out@) + rest, q),
                ),
                Err(e) => Err::<(Seq<Seq<SpecAnnotation>>, int), Error>(e),
            }),
        decreases n - k,
    {
        let ghost out0 = out@;
        match parse_annotation_block(bytes, cur, pool) {
            Err(e) => {
                return Err(e);
            },
            Ok((x, p)) => {
                let ghost xv = view_annotation_seq(x@);
                out.push(x);
                cur = p;
                k = k + 1;
                proof {
                    assert(out@.drop_last() =~= out0);
                    match sp_annotation_block_list(bytes@, cur as int, n - k, view_cp_seq(pool@)) {
                        Ok((rest, _)) => crate::mutf8::lemma_push_prepend(
                            view_annotation_seq_seq(out0),
                            xv,
                            rest,
                        ),
                        Err(_) => {},
                    }
                }
            },
        }
    }
    proof {
        assert(view_annotation_seq_seq(out@) + Seq::<Seq<SpecAnnotation>>::empty()
            =~= view_annotation_seq_seq(out@));
    }
    Ok((out, cur))
}

/// The counted block of per-parameter annotation tables.
pub open spec fn sp_param_annotations(
    b: Seq<u8>,
    i: int,
    pool: Seq<SpecConstantPoolInfo>,
) -> Result<(Seq<Seq<SpecAnnotation>>, int), Error> {
    if !have(b, i, 2) {
        Err(incomplete(i, 2))
    } else {
        let n = u16_at(b, i);
        match sp_annotation_block_list(b, i + 2, n as int, pool) {
            Err(e) => Err(wrap_err(Error::ParameterAnnotations { num_parameters: n as usize }, e)),
            Ok((xs, p)) => Ok((xs, p)),
        }
    }
}

fn parse_param_annotations(bytes: &Vec<u8>, pos: usize, pool: &Vec<ConstantPoolInfo>) -> (r: Result<
    (Vec<Vec<Annotation>>, usize),
    Error,
>)
    ensures
        match r {
            Ok((v, p)) => sp_param_annotations(bytes@, pos as int, view_cp_seq(pool@)) == Ok::<
                (Seq<Seq<SpecAnnotation>>, int),
                Error,
            >((view_annotation_seq_seq(v@), p as int)) && pos < p <= bytes.len(),
            Err(e) => sp_param_annotations(bytes@, pos as int, view_cp_seq(pool@)) == Err::<
                (Seq<Seq<SpecAnnotation>>, int),
                Error,
            >(e),
        },
{
    let (n, p1) = match rd_u16(bytes, pos) {
        Ok(r) => r,
        Err(e) => {
            return Err(e);
        },
    };
    match parse_annotation_block_list(bytes, p1, n as usize, pool) {
        Err(e) => Err(wrap(Error::ParameterAnnotations { num_parameters: n as usize }, e)),
        Ok((xs, p2)) => Ok((xs, p2)),
    }
}

/// The target of a type annotation; the tag byte selects the shape.
pub open spec fn sp_target_info(b: Seq<u8>, i: int) -> Result<(SpecTargetInfo, int), Error> {
    if !have(b, i, 1) {
        Err(incomplete(i, 1))
    } else {
        let t = u8_at(b, i);
        if t == 0x00 || t == 0x01 {
            if !have(b, i + 1, 1) {
                Err(incomplete(i + 1, 1))
            } else {
                Ok(
                    (
                        SpecTargetInfo::TypeParameter { type_parameter_index: u8_at(b, i + 1) },
                        i + 2,
                    ),
                )
            }
        } else if t == 0x10 {
            if !have(b, i + 1, 2) {
                Err(incomplete(i + 1, 2))
            } else {
                Ok((SpecTargetInfo::Supertype { supertype_index: u16_at(b, i + 1) }, i + 3))
            }
        } else if t == 0x11 || t == 0x12 {
            if !have(b, i + 1, 1) {
                Err(incomplete(i + 1, 1))
            } else if !have(b, i + 2, 1) {
                Err(incomplete(i + 2, 1))
            } else {
                Ok(
                    (
                        SpecTargetInfo::TypeParameterBound {
                            type_parameter_index: u8_at(b, i + 1),
                            bound_index: u8_at(b, i + 2),
                        },
                        i + 3,
                    ),
                )
            }
        } else if t == 0x13 || t == 0x14 || t == 0x15 {
            Ok((SpecTargetInfo::Empty, i + 1))
        } else if t == 0x16 {
            if !have(b, i + 1, 1) {
                Err(incomplete(i + 1, 1))
            } else {
                Ok(
                    (
                        SpecTargetInfo::FormalParameter { formal_parameter_index: u8_at(b, i + 1) },
                        i + 2,
                    ),
                )
            }
        } else if t == 0x17 {
            if !have(b, i + 1, 2) {
                Err(incomplete(i + 1, 2))
            } else {
                Ok((SpecTargetInfo::Throws { throws_type_index: u16_at(b, i + 1) }, i + 3))
            }
        } else if t == 0x40 || t == 0x41 {
            if !have(b, i + 1, 2) {
                Err(incomplete(i + 1, 2))
            } else {
                let n = u16_at(b, i + 1);
                match sp_local_variable_target_list(b, i + 3, n as int) {
                    Err(e) => Err(
                        wrap_err(Error::LocalVariableTarget { table_length: n as usize }, e),
                    ),
                    Ok((table, p)) => Ok((SpecTargetInfo::LocalVariable { table }, p)),
                }
            }
        } else if t == 0x42 {
            if !have(b, i + 1, 2) {
                Err(incomplete(i + 1, 2))
            } else {
                Ok((SpecTargetInfo::Catch { exception_table_index: u16_at(b, i + 1) }, i + 3))
            }
        } else if t == 0x43 || t == 0x44 || t == 0x45 || t == 0x46 {
            if !have(b, i + 1, 2) {
                Err(incomplete(i + 1, 2))
            } else {
                Ok((SpecTargetInfo::Offset { offset: u16_at(b, i + 1) }, i + 3))
            }
        } else if t == 0x47 || t == 0x48 || t == 0x49 || t == 0x4a || t == 0x4b {
            if !have(b, i + 1, 2) {
                Err(incomplete(i + 1, 2))
            } else if !have(b, i + 3, 1) {
                Err(incomplete(i + 3, 1))
            } else {
                Ok(
                    (
                        SpecTargetInfo::TypeArgument {
                            offset: u16_at(b, i + 1),
                            type_argument_index: u8_at(b, i + 3),
                        },
                        i + 4,
                    ),
                )
            }
        } else {
            Err(Error::UnknownTargetTypeTag { tag: t })
        }
    }
}

fn parse_target_info(bytes: &Vec<u8>, pos: usize) -> (r: Result<(TargetInfo, usize), Error>)
    ensures
        match r {
            Ok((v, p)) => sp_target_info(bytes@, pos as int) == Ok::<(SpecTargetInfo, int), Error>(
                (view_target_info(v), p as int),
            ) && pos < p <= bytes.len(),
            Err(e) => sp_target_info(bytes@, pos as int) == Err::<(SpecTargetInfo, int), Error>(e),
        },
{
    let (t, p) = match rd_u8(bytes, pos) {
        Ok(r) => r,
        Err(e) => {
            return Err(e);
        },
    };
    if t == 0x00 || t == 0x01 {
        match rd_u8(bytes, p) {
            Err(e) => Err(e),
            Ok((v, p2)) => Ok((TargetInfo::TypeParameter { type_parameter_index: v }, p2)),
        }
    } else if t == 0x10 {
        match rd_u16(bytes, p) {
            Err(e) => Err(e),
            Ok((v, p2)) => Ok((TargetInfo::Supertype { supertype_index: v }, p2)),
        }
    } else if t == 0x11 || t == 0x12 {
        match rd_u8(bytes, p) {
            Err(e) => Err(e),
            Ok((v1, p2)) => match rd_u8(bytes, p2) {
                Err(e) => Err(e),
                Ok((v2, p3)) => Ok(
                    (
                        TargetInfo::TypeParameterBound {
                            type_parameter_index: v1,
                            bound_index: v2,
                        },
                        p3,
                    ),
                ),
            },
        }
    } else if t == 0x13 || t == 0x14 || t == 0x15 {
        Ok((TargetInfo::Empty, p))
    } else if t == 0x16 {
        match rd_u8(bytes, p) {
            Err(e) => Err(e),
            Ok((v, p2)) => Ok((TargetInfo::FormalParameter { formal_parameter_index: v }, p2)),
        }
    } else if t == 0x17 {
        match rd_u16(bytes, p) {
            Err(e) => Err(e),
            Ok((v, p2)) => Ok((TargetInfo::Throws { throws_type_index: v }, p2)),
        }
    } else if t == 0x40 || t == 0x41 {
        match rd_u16(bytes, p) {
            Err(e) => Err(e),
            Ok((n, p2)) => match parse_local_variable_target_list(bytes, p2, n as usize) {
                Err(e) => Err(wrap(Error::LocalVariableTarget { table_length: n as usize }, e)),
                Ok((table, p3)) => Ok((TargetInfo::LocalVariable { table }, p3)),
            },
        }
    } else if t == 0x42 {
        match rd_u16(bytes, p) {
            Err(e) => Err(e),
            Ok((v, p2)) => Ok((TargetInfo::Catch { exception_table_index: v }, p2)),
        }
    } else if t == 0x43 || t == 0x44 || t == 0x45 || t == 0x46 {
        match rd_u16(bytes, p) {
            Err(e) => Err(e),
            Ok((v, p2)) => Ok((TargetInfo::Offset { offset: v }, p2)),
        }
    } else if t == 0x47 || t == 0x48 || t == 0x49 || t == 0x4a || t == 0x4b {
        match rd_u16(bytes, p) {
            Err(e) => Err(e),
            Ok((off, p2)) => match rd_u8(bytes, p2) {
                Err(e) => Err(e),
                Ok((idx, p3)) => Ok(
                    (TargetInfo::TypeArgument { offset: off, type_argument_index: idx }, p3),
                ),
            },
        }
    } else {
        Err(Error::UnknownTargetTypeTag { tag: t })
    }
}

/// The path from a type annotation's target to the annotated type argument.
pub open spec fn sp_type_path(b: Seq<u8>, i: int) -> Result<(SpecTypePath, int), Error> {
    if !have(b, i, 1) {
        Err(incomplete(i, 1))
    } else {
        let n = u8_at(b, i);
        match sp_type_path_part_list(b, i + 1, n as int) {
            Err(e) => Err(wrap_err(Error::TypePath { path_length: n as usize }, e)),
            Ok((path, p)) => Ok((SpecTypePath { path }, p)),
        }
    }
}

fn parse_type_path(bytes: &Vec<u8>, pos: usize) -> (r: Result<(TypePath, usize), Error>)
    ensures
        match r {
            Ok((v, p)) => sp_type_path(bytes@, pos as int) == Ok::<(SpecTypePath, int), Error>(
                (view_type_path(v), p as int),
            ) && pos < p <= bytes.len(),
            Err(e) => sp_type_path(bytes@, pos as int) == Err::<(SpecTypePath, int), Error>(e),
        },
{
    let (n, p1) = match rd_u8(bytes, pos) {
        Ok(r) => r,
        Err(e) => {
            return Err(e);
        },
    };
    match parse_type_path_part_list(bytes, p1, n as usize) {
        Err(e) => Err(wrap(Error::TypePath { path_length: n as usize }, e)),
        Ok((path, p2)) => Ok((TypePath { path }, p2)),
    }
}

/// One type annotation: a target, a type path, the annotation type and its
/// name-value pairs.
pub open spec fn sp_type_annotation(b: Seq<u8>, i: int, pool: Seq<SpecConstantPoolInfo>) -> Result<
    (SpecTypeAnnotation, int),
    Error,
> {
    match sp_target_info(b, i) {
        Err(e) => Err(e),
        Ok((ti, p)) => match sp_type_path(b, p) {
            Err(e) => Err(e),
            Ok((tp, q)) => match sp_cp_index_tag(b, q, pool, Tag::Utf8) {
                Err(e) => Err(e),
                Ok(tyi) => match sp_pair_block(b, q + 2, pool) {
                    Err(e) => Err(e),
                    Ok((ps, s)) => Ok(
                        (
                            SpecTypeAnnotation {
                                target_info: ti,
                                target_path: tp,
                                type_index: tyi,
                                element_value_pairs: ps,
                            },
                            s,
                        ),
                    ),
                },
            },
        },
    }
}

fn parse_type_annotation(bytes: &Vec<u8>, pos: usize, pool: &Vec<ConstantPoolInfo>) -> (r: Result<
    (TypeAnnotation, usize),
    Error,
>)
    ensures
        match r {
            Ok((v, p)) => sp_type_annotation(bytes@, pos as int, view_cp_seq(pool@)) == Ok::<
                (SpecTypeAnnotation, int),
                Error,
            >((view_type_annotation(v), p as int)) && pos < p <= bytes.len(),
            Err(e) => sp_type_annotation(bytes@, pos as int, view_cp_seq(pool@)) == Err::<
                (SpecTypeAnnotation, int),
                Error,
            >(e),
        },
{
    let (ti, p1) = match parse_target_info(bytes, pos) {
        Ok(r) => r,
        Err(e) => {
            return Err(e);
        },
    };
    let (tp, p2) = match parse_type_path(bytes, p1) {
        Ok(r) => r,
        Err(e) => {
            return Err(e);
        },
    };
    let (tyi, p3) = match cp_index_tag(bytes, p2, pool, Tag::Utf8) {
        Ok(r) => r,
        Err(e) => {
            return Err(e);
        },
    };
    match parse_pair_block(bytes, p3, pool) {
        Err(e) => Err(e),
        Ok((ps, p4)) => Ok(
            (
                TypeAnnotation {
                    target_info: ti,
                    target_path: tp,
                    type_index: tyi,
                    element_value_pairs: ps,
                },
                p4,
            ),
        ),
    }
}

pub open spec fn sp_type_annotation_list(
    b: Seq<u8>,
    i: int,
    n: int,
    pool: Seq<SpecConstantPoolInfo>,
) -> Result<(Seq<SpecTypeAnnotation>, int), Error>
    decreases n,
{
    if n <= 0 {
        Ok((Seq::empty(), i))
    } else {
        match sp_type_annotation(b, i, pool) {
            Err(e) => Err(e),
            Ok((x, p)) => match sp_type_annotation_list(b, p, n - 1, pool) {
                Err(e) => Err(e),
                Ok((xs, q)) => Ok((seq![x] + xs, q)),
            },
        }
    }
}

fn parse_type_annotation_list(
    bytes: &Vec<u8>,
    pos: usize,
    n: usize,
    pool: &Vec<ConstantPoolInfo>,
) -> (r: Result<(Vec<TypeAnnotation>, usize), Error>)
    requires
        pos <= bytes@.len(),
    ensures
        match r {
            Ok((v, p)) => sp_type_annotation_list(bytes@, pos as int, n as int, view_cp_seq(pool@))
                == Ok::<(Seq<SpecTypeAnnotation>, int), Error>(
                (view_type_annotation_seq(v@), p as int),
            ) && pos <= p <= bytes.len(),
            Err(e) => sp_type_annotation_list(bytes@, pos as int, n as int, view_cp_seq(pool@))
                == Err::<(Seq<SpecTypeAnnotation>, int), Error>(e),
        },
{
    let mut out: Vec<TypeAnnotation> = Vec::new();
    let mut cur = pos;
    let mut k: usize = 0;
    while k < n
        invariant
            k <= n,
            pos <= cur <= bytes@.len(),
            sp_type_annotation_list(bytes@, pos as int, n as int, view_cp_seq(pool@)) == (
            match sp_type_annotation_list(bytes@, cur as int, n - k, view_cp_seq(pool@)) {
                Ok((rest, q)) => Ok::<(Seq<SpecTypeAnnotation>, int), Error>(
                    (view_type_annotation_seq(out@) + rest, q),
                ),
                Err(e) => Err::<(Seq<SpecTypeAnnotation>, int), Error>(e),
            }),
        decreases n - k,
    {
        let ghost out0 = out@;
        match parse_type_annotation(bytes, cur, pool) {
            Err(e) => {
                return Err(e);
            },
            Ok((x, p)) => {
                out.push(x);
                cur = p;
                k = k + 1;
                proof {
                    assert(view_type_annotation_seq(out@) =~= view_type_annotation_seq(out0).push(
                        view_type_annotation(x),
                    ));
                    match sp_type_annotation_list(bytes@, cur as int, n - k, view_cp_seq(pool@)) {
                        Ok((rest, _)) => crate::mutf8::lemma_push_prepend(
                            view_type_annotation_seq(out0),
                            view_type_annotation(x),
                            rest,
                        ),
                        Err(_) => {},
                    }
                }
            },
        }
    }
    proof {
        assert(view_type_annotation_seq(out@) + Seq::<SpecTypeAnnotation>::empty()
            =~= view_type_annotation_seq(out@));
    }
    Ok((out, cur))
}

/// The counted block of type annotations.
pub open spec fn sp_type_annotation_block(
    b: Seq<u8>,
    i: int,
    pool: Seq<SpecConstantPoolInfo>,
) -> Result<(Seq<SpecTypeAnnotation>, int), Error> {
    if !have(b, i, 2) {
        Err(incomplete(i, 2))
    } else {
        let n = u16_at(b, i);
        match sp_type_annotation_list(b, i + 2, n as int, pool) {
            Err(e) => Err(wrap_err(Error::TypeAnnotations { num_annotations: n as usize }, e)),
            Ok((xs, p)) => Ok((xs, p)),
        }
    }
}

fn parse_type_annotation_block(bytes: &Vec<u8>, pos: usize, pool: &Vec<ConstantPoolInfo>) -> (r:
    Result<(Vec<TypeAnnotation>, usize), Error>)
    ensures
        match r {
            Ok((v, p)) => sp_type_annotation_block(bytes@, pos as int, view_cp_seq(pool@)) == Ok::<
                (Seq<SpecTypeAnnotation>, int),
                Error,
            >((view_type_annotation_seq(v@), p as int)) && pos < p <= bytes.len(),
            Err(e) => sp_type_annotation_block(bytes@, pos as int, view_cp_seq(pool@)) == Err::<
                (Seq<SpecTypeAnnotation>, int),
                Error,
            >(e),
        },
{
    let (n, p1) = match rd_u16(bytes, pos) {
        Ok(r) => r,
        Err(e) => {
            return Err(e);
        },
    };
    match parse_type_annotation_list(bytes, p1, n as usize, pool) {
        Err(e) => Err(wrap(Error::TypeAnnotations { num_annotations: n as usize }, e)),
        Ok((xs, p2)) => Ok((xs, p2)),
    }
}

/// The attribute name "ConstantValue" as modified-UTF-8 bytes.
pub open spec fn nm_constant_value() -> Seq<u8> {
    seq![0x43u8, 0x6fu8, 0x6eu8, 0x73u8, 0x74u8, 0x61u8, 0x6eu8, 0x74u8, 0x56u8, 0x61u8, 0x6cu8, 0x75u8, 0x65u8]
}

fn is_nm_constant_value(v: &Vec<u8>) -> (r: bool)
    ensures
        r == (v@ == nm_constant_value()),
{
    let r = v.len() == 13 && v[0] == 0x43 && v[1] == 0x6f && v[2] == 0x6e && v[3] == 0x73 && v[4] == 0x74 && v[5] == 0x61 && v[6] == 0x6e && v[7] == 0x74 && v[8] == 0x56 && v[9] == 0x61 && v[10] == 0x6c && v[11] == 0x75 && v[12] == 0x65;
    proof {
        if r {
            assert(v@ =~= nm_constant_value());
        }
    }
    r
}

/// The attribute name "Code" as modified-UTF-8 bytes.
pub open spec fn nm_code() -> Seq<u8> {
    seq![0x43u8, 0x6fu8, 0x64u8, 0x65u8]
}

fn is_nm_code(v: &Vec<u8>) -> (r: bool)
    ensures
        r == (v@ == nm_code()),
{
    let r = v.len() == 4 && v[0] == 0x43 && v[1] == 0x6f && v[2] == 0x64 && v[3] == 0x65;
    proof {
        if r {
            assert(v@ =~= nm_code());
        }
    }
    r
}

/// The attribute name "StackMapTable" as modified-UTF-8 bytes.
pub open spec fn nm_stack_map_table() -> Seq<u8> {
    seq![0x53u8, 0x74u8, 0x61u8, 0x63u8, 0x6bu8, 0x4du8, 0x61u8, 0x70u8, 0x54u8, 0x61u8, 0x62u8, 0x6cu8, 0x65u8]
}

fn is_nm_stack_map_table(v: &Vec<u8>) -> (r: bool)
    ensures
        r == (v@ == nm_stack_map_table()),
{
    let r = v.len() == 13 && v[0] == 0x53 && v[1] == 0x74 && v[2] == 0x61 && v[3] == 0x63 && v[4] == 0x6b && v[5] == 0x4d && v[6] == 0x61 && v[7] == 0x70 && v[8] == 0x54 && v[9] == 0x61 && v[10] == 0x62 && v[11] == 0x6c && v[12] == 0x65;
    proof {
        if r {
            assert(v@ =~= nm_stack_map_table());
        }
    }
    r
}

/// The attribute name "Exceptions" as modified-UTF-8 bytes.
pub open spec fn nm_exceptions() -> Seq<u8> {
    seq![0x45u8, 0x78u8, 0x63u8, 0x65u8, 0x70u8, 0x74u8, 0x69u8, 0x6fu8, 0x6eu8, 0x73u8]
}

fn is_nm_exceptions(v: &Vec<u8>) -> (r: bool)
    ensures
        r == (v@ == nm_exceptions()),
{
    let r = v.len() == 10 && v[0] == 0x45 && v[1] == 0x78 && v[2] == 0x63 && v[3] == 0x65 && v[4] == 0x70 && v[5] == 0x74 && v[6] == 0x69 && v[7] == 0x6f && v[8] == 0x6e && v[9] == 0x73;
    proof {
        if r {
            assert(v@ =~= nm_exceptions());
        }
    }
    r
}

/// The attribute name "InnerClasses" as modified-UTF-8 bytes.
pub open spec fn nm_inner_classes() -> Seq<u8> {
    seq![0x49u8, 0x6eu8, 0x6eu8, 0x65u8, 0x72u8, 0x43u8, 0x6cu8, 0x61u8, 0x73u8, 0x73u8, 0x65u8, 0x73u8]
}

fn is_nm_inner_classes(v: &Vec<u8>) -> (r: bool)
    ensures
        r == (v@ == nm_inner_classes()),
{
    let r = v.len() == 12 && v[0] == 0x49 && v[1] == 0x6e && v[2] == 0x6e && v[3] == 0x65 && v[4] == 0x72 && v[5] == 0x43 && v[6] == 0x6c && v[7] == 0x61 && v[8] == 0x73 && v[9] == 0x73 && v[10] == 0x65 && v[11] == 0x73;
    proof {
        if r {
            assert(v@ =~= nm_inner_classes());
        }
    }
    r
}

/// The attribute name "EnclosingMethod" as modified-UTF-8 bytes.
pub open spec fn nm_enclosing_method() -> Seq<u8> {
    seq![0x45u8, 0x6eu8, 0x63u8, 0x6cu8, 0x6fu8, 0x73u8, 0x69u8, 0x6eu8, 0x67u8, 0x4du8, 0x65u8, 0x74u8, 0x68u8, 0x6fu8, 0x64u8]
}

fn is_nm_enclosing_method(v: &Vec<u8>) -> (r: bool)
    ensures
        r == (v@ == nm_enclosing_method()),
{
    let r = v.len() == 15 && v[0] == 0x45 && v[1] == 0x6e && v[2] == 0x63 && v[3] == 0x6c && v[4] == 0x6f && v[5] == 0x73 && v[6] == 0x69 && v[7] == 0x6e && v[8] == 0x67 && v[9] == 0x4d && v[10] == 0x65 && v[11] == 0x74 && v[12] == 0x68 && v[13] == 0x6f && v[14] == 0x64;
    proof {
        if r {
            assert(v@ =~= nm_enclosing_method());
        }
    }
    r
}

/// The attribute name "Synthetic" as modified-UTF-8 bytes.
pub open spec fn nm_synthetic() -> Seq<u8> {
    seq![0x53u8, 0x79u8, 0x6eu8, 0x74u8, 0x68u8, 0x65u8, 0x74u8, 0x69u8, 0x63u8]
}

fn is_nm_synthetic(v: &Vec<u8>) -> (r: bool)
    ensures
        r == (v@ == nm_synthetic()),
{
    let r = v.len() == 9 && v[0] == 0x53 && v[1] == 0x79 && v[2] == 0x6e && v[3] == 0x74 && v[4] == 0x68 && v[5] == 0x65 && v[6] == 0x74 && v[7] == 0x69 && v[8] == 0x63;
    proof {
        if r {
            assert(v@ =~= nm_synthetic());
        }
    }
    r
}

/// The attribute name "Signature" as modified-UTF-8 bytes.
pub open spec fn nm_signature() -> Seq<u8> {
    seq![0x53u8, 0x69u8, 0x67u8, 0x6eu8, 0x61u8, 0x74u8, 0x75u8, 0x72u8, 0x65u8]
}

fn is_nm_signature(v: &Vec<u8>) -> (r: bool)
    ensures
        r == (v@ == nm_signature()),
{
    let r = v.len() == 9 && v[0] == 0x53 && v[1] == 0x69 && v[2] == 0x67 && v[3] == 0x6e && v[4] == 0x61 && v[5] == 0x74 && v[6] == 0x75 && v[7] == 0x72 && v[8] == 0x65;
    proof {
        if r {
            assert(v@ =~= nm_signature());
        }
    }
    r
}

/// The attribute name "RuntimeVisibleAnnotations" as modified-UTF-8 bytes.
pub open spec fn nm_runtime_visible_annotations() -> Seq<u8> {
    seq![0x52u8, 0x75u8, 0x6eu8, 0x74u8, 0x69u8, 0x6du8, 0x65u8, 0x56u8, 0x69u8, 0x73u8, 0x69u8, 0x62u8, 0x6cu8, 0x65u8, 0x41u8, 0x6eu8, 0x6eu8, 0x6fu8, 0x74u8, 0x61u8, 0x74u8, 0x69u8, 0x6fu8, 0x6eu8, 0x73u8]
}

fn is_nm_runtime_visible_annotations(v: &Vec<u8>) -> (r: bool)
    ensures
        r == (v@ == nm_runtime_visible_annotations()),
{
    let r = v.len() == 25 && v[0] == 0x52 && v[1] == 0x75 && v[2] == 0x6e && v[3] == 0x74 && v[4] == 0x69 && v[5] == 0x6d && v[6] == 0x65 && v[7] == 0x56 && v[8] == 0x69 && v[9] == 0x73 && v[10] == 0x69 && v[11] == 0x62 && v[12] == 0x6c && v[13] == 0x65 && v[14] == 0x41 && v[15] == 0x6e && v[16] == 0x6e && v[17] == 0x6f && v[18] == 0x74 && v[19] == 0x61 && v[20] == 0x74 && v[21] == 0x69 && v[22] == 0x6f && v[23] == 0x6e && v[24] == 0x73;
    proof {
        if r {
            assert(v@ =~= nm_runtime_visible_annotations());
        }
    }
    r
}

/// The attribute name "RuntimeInvisibleAnnotations" as modified-UTF-8 bytes.
pub open spec fn nm_runtime_invisible_annotations() -> Seq<u8> {
    seq![0x52u8, 0x75u8, 0x6eu8, 0x74u8, 0x69u8, 0x6du8, 0x65u8, 0x49u8, 0x6eu8, 0x76u8, 0x69u8, 0x73u8, 0x69u8, 0x62u8, 0x6cu8, 0x65u8, 0x41u8, 0x6eu8, 0x6eu8, 0x6fu8, 0x74u8, 0x61u8, 0x74u8, 0x69u8, 0x6fu8, 0x6eu8, 0x73u8]
}

fn is_nm_runtime_invisible_annotations(v: &Vec<u8>) -> (r: bool)
    ensures
        r == (v@ == nm_runtime_invisible_annotations()),
{
    let r = v.len() == 27 && v[0] == 0x52 && v[1] == 0x75 && v[2] == 0x6e && v[3] == 0x74 && v[4] == 0x69 && v[5] == 0x6d && v[6] == 0x65 && v[7] == 0x49 && v[8] == 0x6e && v[9] == 0x76 && v[10] == 0x69 && v[11] == 0x73 && v[12] == 0x69 && v[13] == 0x62 && v[14] == 0x6c && v[15] == 0x65 && v[16] == 0x41 && v[17] == 0x6e && v[18] == 0x6e && v[19] == 0x6f && v[20] == 0x74 && v[21] == 0x61 && v[22] == 0x74 && v[23] == 0x69 && v[24] == 0x6f && v[25] == 0x6e && v[26] == 0x73;
    proof {
        if r {
            assert(v@ =~= nm_runtime_invisible_annotations());
        }
    }
    r
}

/// The attribute name "RuntimeVisibleParameterAnnotations" as modified-UTF-8 bytes.
pub open spec fn nm_runtime_visible_parameter_annotations() -> Seq<u8> {
    seq![0x52u8, 0x75u8, 0x6eu8, 0x74u8, 0x69u8, 0x6du8, 0x65u8, 0x56u8, 0x69u8, 0x73u8, 0x69u8, 0x62u8, 0x6cu8, 0x65u8, 0x50u8, 0x61u8, 0x72u8, 0x61u8, 0x6du8, 0x65u8, 0x74u8, 0x65u8, 0x72u8, 0x41u8, 0x6eu8, 0x6eu8, 0x6fu8, 0x74u8, 0x61u8, 0x74u8, 0x69u8, 0x6fu8, 0x6eu8, 0x73u8]
}

fn is_nm_runtime_visible_parameter_annotations(v: &Vec<u8>) -> (r: bool)
    ensures
        r == (v@ == nm_runtime_visible_parameter_annotations()),
{
    let r = v.len() == 34 && v[0] == 0x52 && v[1] == 0x75 && v[2] == 0x6e && v[3] == 0x74 && v[4] == 0x69 && v[5] == 0x6d && v[6] == 0x65 && v[7] == 0x56 && v[8] == 0x69 && v[9] == 0x73 && v[10] == 0x69 && v[11] == 0x62 && v[12] == 0x6c && v[13] == 0x65 && v[14] == 0x50 && v[15] == 0x61 && v[16] == 0x72 && v[17] == 0x61 && v[18] == 0x6d && v[19] == 0x65 && v[20] == 0x74 && v[21] == 0x65 && v[22] == 0x72 && v[23] == 0x41 && v[24] == 0x6e && v[25] == 0x6e && v[26] == 0x6f && v[27] == 0x74 && v[28] == 0x61 && v[29] == 0x74 && v[30] == 0x69 && v[31] == 0x6f && v[32] == 0x6e && v[33] == 0x73;
    proof {
        if r {
            assert(v@ =~= nm_runtime_visible_parameter_annotations());
        }
    }
    r
}

/// The attribute name "RuntimeInvisibleParameterAnnotations" as modified-UTF-8 bytes.
pub open spec fn nm_runtime_invisible_parameter_annotations() -> Seq<u8> {
    seq![0x52u8, 0x75u8, 0x6eu8, 0x74u8, 0x69u8, 0x6du8, 0x65u8, 0x49u8, 0x6eu8, 0x76u8, 0x69u8, 0x73u8, 0x69u8, 0x62u8, 0x6cu8, 0x65u8, 0x50u8, 0x61u8, 0x72u8, 0x61u8, 0x6du8, 0x65u8, 0x74u8, 0x65u8, 0x72u8, 0x41u8, 0x6eu8, 0x6eu8, 0x6fu8, 0x74u8, 0x61u8, 0x74u8, 0x69u8, 0x6fu8, 0x6eu8, 0x73u8]
}

fn is_nm_runtime_invisible_parameter_annotations(v: &Vec<u8>) -> (r: bool)
    ensures
        r == (v@ == nm_runtime_invisible_parameter_annotations()),
{
    let r = v.len() == 36 && v[0] == 0x52 && v[1] == 0x75 && v[2] == 0x6e && v[3] == 0x74 && v[4] == 0x69 && v[5] == 0x6d && v[6] == 0x65 && v[7] == 0x49 && v[8] == 0x6e && v[9] == 0x76 && v[10] == 0x69 && v[11] == 0x73 && v[12] == 0x69 && v[13] == 0x62 && v[14] == 0x6c && v[15] == 0x65 && v[16] == 0x50 && v[17] == 0x61 && v[18] == 0x72 && v[19] == 0x61 && v[20] == 0x6d && v[21] == 0x65 && v[22] == 0x74 && v[23] == 0x65 && v[24] == 0x72 && v[25] == 0x41 && v[26] == 0x6e && v[27] == 0x6e && v[28] == 0x6f && v[29] == 0x74 && v[30] == 0x61 && v[31] == 0x74 && v[32] == 0x69 && v[33] == 0x6f && v[34] == 0x6e && v[35] == 0x73;
    proof {
        if r {
            assert(v@ =~= nm_runtime_invisible_parameter_annotations());
        }
    }
    r
}

/// The attribute name "RuntimeVisibleTypeAnnotations" as modified-UTF-8 bytes.
pub open spec fn nm_runtime_visible_type_annotations() -> Seq<u8> {
    seq![0x52u8, 0x75u8, 0x6eu8, 0x74u8, 0x69u8, 0x6du8, 0x65u8, 0x56u8, 0x69u8, 0x73u8, 0x69u8, 0x62u8, 0x6cu8, 0x65u8, 0x54u8, 0x79u8, 0x70u8, 0x65u8, 0x41u8, 0x6eu8, 0x6eu8, 0x6fu8, 0x74u8, 0x61u8, 0x74u8, 0x69u8, 0x6fu8, 0x6eu8, 0x73u8]
}

fn is_nm_runtime_visible_type_annotations(v: &Vec<u8>) -> (r: bool)
    ensures
        r == (v@ == nm_runtime_visible_type_annotations()),
{
    let r = v.len() == 29 && v[0] == 0x52 && v[1] == 0x75 && v[2] == 0x6e && v[3] == 0x74 && v[4] == 0x69 && v[5] == 0x6d && v[6] == 0x65 && v[7] == 0x56 && v[8] == 0x69 && v[9] == 0x73 && v[10] == 0x69 && v[11] == 0x62 && v[12] == 0x6c && v[13] == 0x65 && v[14] == 0x54 && v[15] == 0x79 && v[16] == 0x70 && v[17] == 0x65 && v[18] == 0x41 && v[19] == 0x6e && v[20] == 0x6e && v[21] == 0x6f && v[22] == 0x74 && v[23] == 0x61 && v[24] == 0x74 && v[25] == 0x69 && v[26] == 0x6f && v[27] == 0x6e && v[28] == 0x73;
    proof {
        if r {
            assert(v@ =~= nm_runtime_visible_type_annotations());
        }
    }
    r
}

/// The attribute name "RuntimeInvisibleTypeAnnotations" as modified-UTF-8 bytes.
pub open spec fn nm_runtime_invisible_type_annotations() -> Seq<u8> {
    seq![0x52u8, 0x75u8, 0x6eu8, 0x74u8, 0x69u8, 0x6du8, 0x65u8, 0x49u8, 0x6eu8, 0x76u8, 0x69u8, 0x73u8, 0x69u8, 0x62u8, 0x6cu8, 0x65u8, 0x54u8, 0x79u8, 0x70u8, 0x65u8, 0x41u8, 0x6eu8, 0x6eu8, 0x6fu8, 0x74u8, 0x61u8, 0x74u8, 0x69u8, 0x6fu8, 0x6eu8, 0x73u8]
}

fn is_nm_runtime_invisible_type_annotations(v: &Vec<u8>) -> (r: bool)
    ensures
        r == (v@ == nm_runtime_invisible_type_annotations()),
{
    let r = v.len() == 31 && v[0] == 0x52 && v[1] == 0x75 && v[2] == 0x6e && v[3] == 0x74 && v[4] == 0x69 && v[5] == 0x6d && v[6] == 0x65 && v[7] == 0x49 && v[8] == 0x6e && v[9] == 0x76 && v[10] == 0x69 && v[11] == 0x73 && v[12] == 0x69 && v[13] == 0x62 && v[14] == 0x6c && v[15] == 0x65 && v[16] == 0x54 && v[17] == 0x79 && v[18] == 0x70 && v[19] == 0x65 && v[20] == 0x41 && v[21] == 0x6e && v[22] == 0x6e && v[23] == 0x6f && v[24] == 0x74 && v[25] == 0x61 && v[26] == 0x74 && v[27] == 0x69 && v[28] == 0x6f && v[29] == 0x6e && v[30] == 0x73;
    proof {
        if r {
            assert(v@ =~= nm_runtime_invisible_type_annotations());
        }
    }
    r
}

/// The attribute name "AnnotationDefault" as modified-UTF-8 bytes.
pub open spec fn nm_annotation_default() -> Seq<u8> {
    seq![0x41u8, 0x6eu8, 0x6eu8, 0x6fu8, 0x74u8, 0x61u8, 0x74u8, 0x69u8, 0x6fu8, 0x6eu8, 0x44u8, 0x65u8, 0x66u8, 0x61u8, 0x75u8, 0x6cu8, 0x74u8]
}

fn is_nm_annotation_default(v: &Vec<u8>) -> (r: bool)
    ensures
        r == (v@ == nm_annotation_default()),
{
    let r = v.len() == 17 && v[0] == 0x41 && v[1] == 0x6e && v[2] == 0x6e && v[3] == 0x6f && v[4] == 0x74 && v[5] == 0x61 && v[6] == 0x74 && v[7] == 0x69 && v[8] == 0x6f && v[9] == 0x6e && v[10] == 0x44 && v[11] == 0x65 && v[12] == 0x66 && v[13] == 0x61 && v[14] == 0x75 && v[15] == 0x6c && v[16] == 0x74;
    proof {
        if r {
            assert(v@ =~= nm_annotation_default());
        }
    }
    r
}

/// The attribute name "MethodParameters" as modified-UTF-8 bytes.
pub open spec fn nm_method_parameters() -> Seq<u8> {
    seq![0x4du8, 0x65u8, 0x74u8, 0x68u8, 0x6fu8, 0x64u8, 0x50u8, 0x61u8, 0x72u8, 0x61u8, 0x6du8, 0x65u8, 0x74u8, 0x65u8, 0x72u8, 0x73u8]
}

fn is_nm_method_parameters(v: &Vec<u8>) -> (r: bool)
    ensures
        r == (v@ == nm_method_parameters()),
{
    let r = v.len() == 16 && v[0] == 0x4d && v[1] == 0x65 && v[2] == 0x74 && v[3] == 0x68 && v[4] == 0x6f && v[5] == 0x64 && v[6] == 0x50 && v[7] == 0x61 && v[8] == 0x72 && v[9] == 0x61 && v[10] == 0x6d && v[11] == 0x65 && v[12] == 0x74 && v[13] == 0x65 && v[14] == 0x72 && v[15] == 0x73;
    proof {
        if r {
            assert(v@ =~= nm_method_parameters());
        }
    }
    r
}

/// The attribute name "SourceFile" as modified-UTF-8 bytes.
pub open spec fn nm_source_file() -> Seq<u8> {
    seq![0x53u8, 0x6fu8, 0x75u8, 0x72u8, 0x63u8, 0x65u8, 0x46u8, 0x69u8, 0x6cu8, 0x65u8]
}

fn is_nm_source_file(v: &Vec<u8>) -> (r: bool)
    ensures
        r == (v@ == nm_source_file()),
{
    let r = v.len() == 10 && v[0] == 0x53 && v[1] == 0x6f && v[2] == 0x75 && v[3] == 0x72 && v[4] == 0x63 && v[5] == 0x65 && v[6] == 0x46 && v[7] == 0x69 && v[8] == 0x6c && v[9] == 0x65;
    proof {
        if r {
            assert(v@ =~= nm_source_file());
        }
    }
    r
}

/// The attribute name "SourceDebugExtension" as modified-UTF-8 bytes.
pub open spec fn nm_source_debug_extension() -> Seq<u8> {
    seq![0x53u8, 0x6fu8, 0x75u8, 0x72u8, 0x63u8, 0x65u8, 0x44u8, 0x65u8, 0x62u8, 0x75u8, 0x67u8, 0x45u8, 0x78u8, 0x74u8, 0x65u8, 0x6eu8, 0x73u8, 0x69u8, 0x6fu8, 0x6eu8]
}

fn is_nm_source_debug_extension(v: &Vec<u8>) -> (r: bool)
    ensures
        r == (v@ == nm_source_debug_extension()),
{
    let r = v.len() == 20 && v[0] == 0x53 && v[1] == 0x6f && v[2] == 0x75 && v[3] == 0x72 && v[4] == 0x63 && v[5] == 0x65 && v[6] == 0x44 && v[7] == 0x65 && v[8] == 0x62 && v[9] == 0x75 && v[10] == 0x67 && v[11] == 0x45 && v[12] == 0x78 && v[13] == 0x74 && v[14] == 0x65 && v[15] == 0x6e && v[16] == 0x73 && v[17] == 0x69 && v[18] == 0x6f && v[19] == 0x6e;
    proof {
        if r {
            assert(v@ =~= nm_source_debug_extension());
        }
    }
    r
}

/// The attribute name "LineNumberTable" as modified-UTF-8 bytes.
pub open spec fn nm_line_number_table() -> Seq<u8> {
    seq![0x4cu8, 0x69u8, 0x6eu8, 0x65u8, 0x4eu8, 0x75u8, 0x6du8, 0x62u8, 0x65u8, 0x72u8, 0x54u8, 0x61u8, 0x62u8, 0x6cu8, 0x65u8]
}

fn is_nm_line_number_table(v: &Vec<u8>) -> (r: bool)
    ensures
        r == (v@ == nm_line_number_table()),
{
    let r = v.len() == 15 && v[0] == 0x4c && v[1] == 0x69 && v[2] == 0x6e && v[3] == 0x65 && v[4] == 0x4e && v[5] == 0x75 && v[6] == 0x6d && v[7] == 0x62 && v[8] == 0x65 && v[9] == 0x72 && v[10] == 0x54 && v[11] == 0x61 && v[12] == 0x62 && v[13] == 0x6c && v[14] == 0x65;
    proof {
        if r {
            assert(v@ =~= nm_line_number_table());
        }
    }
    r
}

/// The attribute name "LocalVariableTable" as modified-UTF-8 bytes.
pub open spec fn nm_local_variable_table() -> Seq<u8> {
    seq![0x4cu8, 0x6fu8, 0x63u8, 0x61u8, 0x6cu8, 0x56u8, 0x61u8, 0x72u8, 0x69u8, 0x61u8, 0x62u8, 0x6cu8, 0x65u8, 0x54u8, 0x61u8, 0x62u8, 0x6cu8, 0x65u8]
}

fn is_nm_local_variable_table(v: &Vec<u8>) -> (r: bool)
    ensures
        r == (v@ == nm_local_variable_table()),
{
    let r = v.len() == 18 && v[0] == 0x4c && v[1] == 0x6f && v[2] == 0x63 && v[3] == 0x61 && v[4] == 0x6c && v[5] == 0x56 && v[6] == 0x61 && v[7] == 0x72 && v[8] == 0x69 && v[9] == 0x61 && v[10] == 0x62 && v[11] == 0x6c && v[12] == 0x65 && v[13] == 0x54 && v[14] == 0x61 && v[15] == 0x62 && v[16] == 0x6c && v[17] == 0x65;
    proof {
        if r {
            assert(v@ =~= nm_local_variable_table());
        }
    }
    r
}

/// The attribute name "LocalVariableTypeTable" as modified-UTF-8 bytes.
pub open spec fn nm_local_variable_type_table() -> Seq<u8> {
    seq![0x4cu8, 0x6fu8, 0x63u8, 0x61u8, 0x6cu8, 0x56u8, 0x61u8, 0x72u8, 0x69u8, 0x61u8, 0x62u8, 0x6cu8, 0x65u8, 0x54u8, 0x79u8, 0x70u8, 0x65u8, 0x54u8, 0x61u8, 0x62u8, 0x6cu8, 0x65u8]
}

fn is_nm_local_variable_type_table(v: &Vec<u8>) -> (r: bool)
    ensures
        r == (v@ == nm_local_variable_type_table()),
{
    let r = v.len() == 22 && v[0] == 0x4c && v[1] == 0x6f && v[2] == 0x63 && v[3] == 0x61 && v[4] == 0x6c && v[5] == 0x56 && v[6] == 0x61 && v[7] == 0x72 && v[8] == 0x69 && v[9] == 0x61 && v[10] == 0x62 && v[11] == 0x6c && v[12] == 0x65 && v[13] == 0x54 && v[14] == 0x79 && v[15] == 0x70 && v[16] == 0x65 && v[17] == 0x54 && v[18] == 0x61 && v[19] == 0x62 && v[20] == 0x6c && v[21] == 0x65;
    proof {
        if r {
            assert(v@ =~= nm_local_variable_type_table());
        }
    }
    r
}

/// The attribute name "Deprecated" as modified-UTF-8 bytes.
pub open spec fn nm_deprecated() -> Seq<u8> {
    seq![0x44u8, 0x65u8, 0x70u8, 0x72u8, 0x65u8, 0x63u8, 0x61u8, 0x74u8, 0x65u8, 0x64u8]
}

fn is_nm_deprecated(v: &Vec<u8>) -> (r: bool)
    ensures
        r == (v@ == nm_deprecated()),
{
    let r = v.len() == 10 && v[0] == 0x44 && v[1] == 0x65 && v[2] == 0x70 && v[3] == 0x72 && v[4] == 0x65 && v[5] == 0x63 && v[6] == 0x61 && v[7] == 0x74 && v[8] == 0x65 && v[9] == 0x64;
    proof {
        if r {
            assert(v@ =~= nm_deprecated());
        }
    }
    r
}

/// The body of one attribute, dispatched on the decoded bytes of its name:
/// each of the recognized names has its own shape, and any other name takes
/// exactly `length` raw bytes as an opaque `Unknown` attribute.
pub open spec fn sp_attr_switch(
    b: Seq<u8>,
    i: int,
    name: Seq<u8>,
    name_index: u16,
    length: u32,
    pool: Seq<SpecConstantPoolInfo>,
) -> Result<(SpecAttributeInfo, int), Error>
    decreases b.len() - i, 0int,
{
    if name == nm_constant_value() {
        if !have(b, i, 2) {
            Err(incomplete(i, 2))
        } else {
            Ok((SpecAttributeInfo::ConstantValue { constant_value_index: u16_at(b, i) }, i + 2))
        }
    } else if name == nm_code() {
        if !have(b, i, 2) {
            Err(incomplete(i, 2))
        } else if !have(b, i + 2, 2) {
            Err(incomplete(i + 2, 2))
        } else if !have(b, i + 4, 4) {
            Err(incomplete(i + 4, 4))
        } else {
            match sp_take(b, i + 8, u32_at(b, i + 4) as int) {
                Err(e) => Err(e),
                Ok((code, p)) => if !have(b, p, 2) {
                    Err(incomplete(p, 2))
                } else {
                    match sp_exc_list(b, p + 2, u16_at(b, p) as int, pool) {
                        Err(e) => Err(e),
                        Ok((et, q)) => if !have(b, q, 2) {
                            Err(incomplete(q, 2))
                        } else if !(i < q + 2) {
                            // unreachable: the code block lies behind q
                            Err(incomplete(i, 1))
                        } else {
                            let ac = u16_at(b, q);
                            match sp_attrs(b, q + 2, ac as int, pool) {
                                Err(e) => Err(
                                    wrap_err(
                                        Error::CodeAttributes { attributes_count: ac as usize },
                                        e,
                                    ),
                                ),
                                Ok((attrs, s)) => Ok(
                                    (
                                        SpecAttributeInfo::Code {
                                            max_stack: u16_at(b, i),
                                            max_locals: u16_at(b, i + 2),
                                            code,
                                            exception_table: et,
                                            attributes: attrs,
                                        },
                                        s,
                                    ),
                                ),
                            }
                        },
                    }
                },
            }
        }
    } else if name == nm_stack_map_table() {
        if !have(b, i, 2) {
            Err(incomplete(i, 2))
        } else {
            let n = u16_at(b, i);
            match sp_frame_list(b, i + 2, n as int, pool) {
                Err(e) => Err(wrap_err(Error::StackMapTable { number_of_entries: n as usize }, e)),
                Ok((entries, p)) => Ok((SpecAttributeInfo::StackMapTable { entries }, p)),
            }
        }
    } else if name == nm_exceptions() {
        if !have(b, i, 2) {
            Err(incomplete(i, 2))
        } else {
            match sp_class_index_list(b, i + 2, u16_at(b, i) as int, pool) {
                Err(e) => Err(e),
                Ok((t, p)) => Ok((SpecAttributeInfo::Exceptions { exception_index_table: t }, p)),
            }
        }
    } else if name == nm_inner_classes() {
        if !have(b, i, 2) {
            Err(incomplete(i, 2))
        } else {
            let n = u16_at(b, i);
            match sp_inner_class_list(b, i + 2, n as int, pool) {
                Err(e) => Err(wrap_err(Error::InnerClasses { number_of_classes: n as usize }, e)),
                Ok((classes, p)) => Ok((SpecAttributeInfo::InnerClasses { classes }, p)),
            }
        }
    } else if name == nm_enclosing_method() {
        match sp_cp_index_tag(b, i, pool, Tag::Class) {
            Err(e) => Err(e),
            Ok(ci) => match sp_cp_index_tag(b, i + 2, pool, Tag::NameAndType) {
                Err(e) => Err(e),
                Ok(mi) => Ok(
                    (SpecAttributeInfo::EnclosingMethod { class_index: ci, method_index: mi }, i + 4),
                ),
            },
        }
    } else if name == nm_synthetic() {
        Ok((SpecAttributeInfo::Synthetic, i))
    } else if name == nm_signature() {
        match sp_cp_index_tag(b, i, pool, Tag::Utf8) {
            Err(e) => Err(wrap_err(Error::Signature, e)),
            Ok(si) => Ok((SpecAttributeInfo::Signature { signature_index: si }, i + 2)),
        }
    } else if name == nm_runtime_visible_annotations() {
        match sp_annotation_block(b, i, pool) {
            Err(e) => Err(e),
            Ok((annotations, p)) => Ok(
                (SpecAttributeInfo::RuntimeVisibleAnnotations { annotations }, p),
            ),
        }
    } else if name == nm_runtime_invisible_annotations() {
        match sp_annotation_block(b, i, pool) {
            Err(e) => Err(e),
            Ok((annotations, p)) => Ok(
                (SpecAttributeInfo::RuntimeInvisibleAnnotations { annotations }, p),
            ),
        }
    } else if name == nm_runtime_visible_parameter_annotations() {
        match sp_param_annotations(b, i, pool) {
            Err(e) => Err(e),
            Ok((pa, p)) => Ok(
                (
                    SpecAttributeInfo::RuntimeVisibleParameterAnnotations {
                        parameter_annotations: pa,
                    },
                    p,
                ),
            ),
        }
    } else if name == nm_runtime_invisible_parameter_annotations() {
        match sp_param_annotations(b, i, pool) {
            Err(e) => Err(e),
            Ok((pa, p)) => Ok(
                (
                    SpecAttributeInfo::RuntimeInvisibleParameterAnnotations {
                        parameter_annotations: pa,
                    },
                    p,
                ),
            ),
        }
    } else if name == nm_runtime_visible_type_annotations() {
        match sp_type_annotation_block(b, i, pool) {
            Err(e) => Err(e),
            Ok((annotations, p)) => Ok(
                (SpecAttributeInfo::RuntimeVisibleTypeAnnotations { annotations }, p),
            ),
        }
    } else if name == nm_runtime_invisible_type_annotations() {
        match sp_type_annotation_block(b, i, pool) {
            Err(e) => Err(e),
            Ok((annotations, p)) => Ok(
                (SpecAttributeInfo::RuntimeInvisibleTypeAnnotations { annotations }, p),
            ),
        }
    } else if name == nm_annotation_default() {
        match sp_element_value(b, i, pool) {
            Err(e) => Err(e),
            Ok((v, p)) => Ok((SpecAttributeInfo::AnnotationDefault { default_value: v }, p)),
        }
    } else if name == nm_method_parameters() {
        if !have(b, i, 2) {
            Err(incomplete(i, 2))
        } else {
            let n = u16_at(b, i);
            match sp_method_parameter_list(b, i + 2, n as int, pool) {
                Err(e) => Err(wrap_err(Error::MethodParameters { parameters_count: n as usize }, e)),
                Ok((parameters, p)) => Ok((SpecAttributeInfo::MethodParameters { parameters }, p)),
            }
        }
    } else if name == nm_source_file() {
        match sp_cp_index_tag(b, i, pool, Tag::Utf8) {
            Err(e) => Err(e),
            Ok(si) => Ok((SpecAttributeInfo::SourceFile { sourcefile_index: si }, i + 2)),
        }
    } else if name == nm_source_debug_extension() {
        match sp_take(b, i, length as int) {
            Err(e) => Err(wrap_err(Error::SourceDebugExtension, e)),
            Ok((bs, p)) => Ok((SpecAttributeInfo::SourceDebugExtension { debug_extension: bs }, p)),
        }
    } else if name == nm_line_number_table() {
        if !have(b, i, 2) {
            Err(incomplete(i, 2))
        } else {
            let n = u16_at(b, i);
            match sp_line_number_list(b, i + 2, n as int) {
                Err(e) => Err(wrap_err(Error::LineNumberTable { table_length: n as usize }, e)),
                Ok((t, p)) => Ok((SpecAttributeInfo::LineNumberTable { line_number_table: t }, p)),
            }
        }
    } else if name == nm_local_variable_table() {
        if !have(b, i, 2) {
            Err(incomplete(i, 2))
        } else {
            let n = u16_at(b, i);
            match sp_local_variable_list(b, i + 2, n as int) {
                Err(e) => Err(wrap_err(Error::LocalVariableTable { table_length: n as usize }, e)),
                Ok((t, p)) => Ok(
                    (SpecAttributeInfo::LocalVariableTable { local_variable_table: t }, p),
                ),
            }
        }
    } else if name == nm_local_variable_type_table() {
        if !have(b, i, 2) {
            Err(incomplete(i, 2))
        } else {
            let n = u16_at(b, i);
            match sp_local_variable_type_list(b, i + 2, n as int) {
                Err(e) => Err(
                    wrap_err(Error::LocalVariableTypeTable { table_length: n as usize }, e),
                ),
                Ok((t, p)) => Ok(
                    (SpecAttributeInfo::LocalVariableTypeTable { local_variable_type_table: t }, p),
                ),
            }
        }
    } else if name == nm_deprecated() {
        Ok((SpecAttributeInfo::Deprecated, i))
    } else {
        match sp_take(b, i, length as int) {
            Err(e) => Err(e),
            Ok((info, p)) => Ok(
                (SpecAttributeInfo::Unknown { attribute_name_index: name_index, info }, p),
            ),
        }
    }
}

/// One attribute: a name index that must point at a `Utf8` constant, a
/// declared byte length, and the body dispatched on the name.
pub open spec fn sp_attribute(b: Seq<u8>, i: int, pool: Seq<SpecConstantPoolInfo>) -> Result<
    (SpecAttributeInfo, int),
    Error,
>
    decreases b.len() - i, 1int,
{
    if !have(b, i, 2) {
        Err(incomplete(i, 2))
    } else if !have(b, i + 2, 4) {
        Err(incomplete(i + 2, 4))
    } else {
        let ni = u16_at(b, i);
        let length = u32_at(b, i + 2);
        match spec_cp_get(pool, ni as int) {
            Option::None => Err(
                wrap_err(
                    Error::Attribute,
                    Error::AttributeInfoNameIndexOutOfBounds { attribute_name_index: ni as usize },
                ),
            ),
            Option::Some(entry) => match entry {
                SpecConstantPoolInfo::Utf8 { bytes: name } => match sp_attr_switch(
                    b,
                    i + 6,
                    name,
                    ni,
                    length,
                    pool,
                ) {
                    Err(e) => Err(
                        wrap_err(
                            Error::Attribute,
                            wrap_err(
                                Error::AttributeInfo {
                                    attribute_name_index: ni as usize,
                                    attribute_length: length as usize,
                                },
                                e,
                            ),
                        ),
                    ),
                    Ok((a, p)) => Ok((a, p)),
                },
                _ => Err(
                    wrap_err(
                        Error::Attribute,
                        Error::UnexpectedConstantPoolType {
                            index: ni as usize,
                            expected: Tag::Utf8,
                            actual: spec_tag_of(entry),
                        },
                    ),
                ),
            },
        }
    }
}

pub open spec fn sp_attrs(b: Seq<u8>, i: int, n: int, pool: Seq<SpecConstantPoolInfo>) -> Result<
    (Seq<SpecAttributeInfo>, int),
    Error,
>
    decreases b.len() - i, 2 + n,
{
    if n <= 0 {
        Ok((Seq::empty(), i))
    } else {
        match sp_attribute(b, i, pool) {
            Err(e) => Err(e),
            Ok((x, p)) => if !(i < p && p <= b.len()) {
                // unreachable: every attribute spans at least its header
                Err(incomplete(i, 1))
            } else {
                match sp_attrs(b, p, n - 1, pool) {
                    Err(e) => Err(e),
                    Ok((xs, q)) => Ok((seq![x] + xs, q)),
                }
            },
        }
    }
}

fn parse_attr_switch(
    bytes: &Vec<u8>,
    pos: usize,
    name: &Vec<u8>,
    name_index: u16,
    length: u32,
    pool: &Vec<ConstantPoolInfo>,
) -> (r: Result<(AttributeInfo, usize), Error>)
    requires
        pos <= bytes@.len(),
    ensures
        match r {
            Ok((v, p)) => sp_attr_switch(
                bytes@,
                pos as int,
                name@,
                name_index,
                length,
                view_cp_seq(pool@),
            ) == Ok::<(SpecAttributeInfo, int), Error>((view_attr(v), p as int)) && pos <= p
                <= bytes.len(),
            Err(e) => sp_attr_switch(
                bytes@,
                pos as int,
                name@,
                name_index,
                length,
                view_cp_seq(pool@),
            ) == Err::<(SpecAttributeInfo, int), Error>(e),
        },
    decreases bytes@.len() - pos, 0int,
{
    if is_nm_constant_value(name) {
        match rd_u16(bytes, pos) {
            Err(e) => Err(e),
            Ok((ci, p)) => Ok((AttributeInfo::ConstantValue { constant_value_index: ci }, p)),
        }
    } else if is_nm_code(name) {
        let (max_stack, p1) = match rd_u16(bytes, pos) {
            Ok(r) => r,
            Err(e) => {
                return Err(e);
            },
        };
        let (max_locals, p2) = match rd_u16(bytes, p1) {
            Ok(r) => r,
            Err(e) => {
                return Err(e);
            },
        };
        let (code_length, p3) = match rd_u32(bytes, p2) {
            Ok(r) => r,
            Err(e) => {
                return Err(e);
            },
        };
        let (code, p4) = match parse_take(bytes, p3, code_length as usize) {
            Ok(r) => r,
            Err(e) => {
                return Err(e);
            },
        };
        let (etl, p5) = match rd_u16(bytes, p4) {
            Ok(r) => r,
            Err(e) => {
                return Err(e);
            },
        };
        let (et, p6) = match parse_exc_list(bytes, p5, etl as usize, pool) {
            Ok(r) => r,
            Err(e) => {
                return Err(e);
            },
        };
        let (ac, p7) = match rd_u16(bytes, p6) {
            Ok(r) => r,
            Err(e) => {
                return Err(e);
            },
        };
        match parse_attrs(bytes, p7, ac as usize, pool) {
            Err(e) => Err(wrap(Error::CodeAttributes { attributes_count: ac as usize }, e)),
            Ok((attrs, p8)) => Ok(
                (
                    AttributeInfo::Code {
                        max_stack,
                        max_locals,
                        code,
                        exception_table: et,
                        attributes: attrs,
                    },
                    p8,
                ),
            ),
        }
    } else if is_nm_stack_map_table(name) {
        match rd_u16(bytes, pos) {
            Err(e) => Err(e),
            Ok((n, p)) => match parse_frame_list(bytes, p, n as usize, pool) {
                Err(e) => Err(wrap(Error::StackMapTable { number_of_entries: n as usize }, e)),
                Ok((entries, p2)) => Ok((AttributeInfo::StackMapTable { entries }, p2)),
            },
        }
    } else if is_nm_exceptions(name) {
        match rd_u16(bytes, pos) {
            Err(e) => Err(e),
            Ok((n, p)) => match parse_class_index_list(bytes, p, n as usize, pool) {
                Err(e) => Err(e),
                Ok((t, p2)) => Ok((AttributeInfo::Exceptions { exception_index_table: t }, p2)),
            },
        }
    } else if is_nm_inner_classes(name) {
        match rd_u16(bytes, pos) {
            Err(e) => Err(e),
            Ok((n, p)) => match parse_inner_class_list(bytes, p, n as usize, pool) {
                Err(e) => Err(wrap(Error::InnerClasses { number_of_classes: n as usize }, e)),
                Ok((classes, p2)) => Ok((AttributeInfo::InnerClasses { classes }, p2)),
            },
        }
    } else if is_nm_enclosing_method(name) {
        match cp_index_tag(bytes, pos, pool, Tag::Class) {
            Err(e) => Err(e),
            Ok((ci, p)) => match cp_index_tag(bytes, p, pool, Tag::NameAndType) {
                Err(e) => Err(e),
                Ok((mi, p2)) => Ok(
                    (AttributeInfo::EnclosingMethod { class_index: ci, method_index: mi }, p2),
                ),
            },
        }
    } else if is_nm_synthetic(name) {
        Ok((AttributeInfo::Synthetic, pos))
    } else if is_nm_signature(name) {
        match cp_index_tag(bytes, pos, pool, Tag::Utf8) {
            Err(e) => Err(wrap(Error::Signature, e)),
            Ok((si, p)) => Ok((AttributeInfo::Signature { signature_index: si }, p)),
        }
    } else if is_nm_runtime_visible_annotations(name) {
        match parse_annotation_block(bytes, pos, pool) {
            Err(e) => Err(e),
            Ok((annotations, p)) => Ok(
                (AttributeInfo::RuntimeVisibleAnnotations { annotations }, p),
            ),
        }
    } else if is_nm_runtime_invisible_annotations(name) {
        match parse_annotation_block(bytes, pos, pool) {
            Err(e) => Err(e),
            Ok((annotations, p)) => Ok(
                (AttributeInfo::RuntimeInvisibleAnnotations { annotations }, p),
            ),
        }
    } else if is_nm_runtime_visible_parameter_annotations(name) {
        match parse_param_annotations(bytes, pos, pool) {
            Err(e) => Err(e),
            Ok((pa, p)) => Ok(
                (
                    AttributeInfo::RuntimeVisibleParameterAnnotations {
                        parameter_annotations: pa,
                    },
                    p,
                ),
            ),
        }
    } else if is_nm_runtime_invisible_parameter_annotations(name) {
        match parse_param_annotations(bytes, pos, pool) {
            Err(e) => Err(e),
            Ok((pa, p)) => Ok(
                (
                    AttributeInfo::RuntimeInvisibleParameterAnnotations {
                        parameter_annotations: pa,
                    },
                    p,
                ),
            ),
        }
    } else if is_nm_runtime_visible_type_annotations(name) {
        match parse_type_annotation_block(bytes, pos, pool) {
            Err(e) => Err(e),
            Ok((annotations, p)) => Ok(
                (AttributeInfo::RuntimeVisibleTypeAnnotations { annotations }, p),
            ),
        }
    } else if is_nm_runtime_invisible_type_annotations(name) {
        match parse_type_annotation_block(bytes, pos, pool) {
            Err(e) => Err(e),
            Ok((annotations, p)) => Ok(
                (AttributeInfo::RuntimeInvisibleTypeAnnotations { annotations }, p),
            ),
        }
    } else if is_nm_annotation_default(name) {
        match parse_element_value(bytes, pos, pool) {
            Err(e) => Err(e),
            Ok((v, p)) => Ok((AttributeInfo::AnnotationDefault { default_value: v }, p)),
        }
    } else if is_nm_method_parameters(name) {
        match rd_u16(bytes, pos) {
            Err(e) => Err(e),
            Ok((n, p)) => match parse_method_parameter_list(bytes, p, n as usize, pool) {
                Err(e) => Err(wrap(Error::MethodParameters { parameters_count: n as usize }, e)),
                Ok((parameters, p2)) => Ok((AttributeInfo::MethodParameters { parameters }, p2)),
            },
        }
    } else if is_nm_source_file(name) {
        match cp_index_tag(bytes, pos, pool, Tag::Utf8) {
            Err(e) => Err(e),
            Ok((si, p)) => Ok((AttributeInfo::SourceFile { sourcefile_index: si }, p)),
        }
    } else if is_nm_source_debug_extension(name) {
        match parse_take(bytes, pos, length as usize) {
            Err(e) => Err(wrap(Error::SourceDebugExtension, e)),
            Ok((bs, p)) => Ok((AttributeInfo::SourceDebugExtension { debug_extension: bs }, p)),
        }
    } else if is_nm_line_number_table(name) {
        match rd_u16(bytes, pos) {
            Err(e) => Err(e),
            Ok((n, p)) => match parse_line_number_list(bytes, p, n as usize) {
                Err(e) => Err(wrap(Error::LineNumberTable { table_length: n as usize }, e)),
                Ok((t, p2)) => Ok((AttributeInfo::LineNumberTable { line_number_table: t }, p2)),
            },
        }
    } else if is_nm_local_variable_table(name) {
        match rd_u16(bytes, pos) {
            Err(e) => Err(e),
            Ok((n, p)) => match parse_local_variable_list(bytes, p, n as usize) {
                Err(e) => Err(wrap(Error::LocalVariableTable { table_length: n as usize }, e)),
                Ok((t, p2)) => Ok(
                    (AttributeInfo::LocalVariableTable { local_variable_table: t }, p2),
                ),
            },
        }
    } else if is_nm_local_variable_type_table(name) {
        match rd_u16(bytes, pos) {
            Err(e) => Err(e),
            Ok((n, p)) => match parse_local_variable_type_list(bytes, p, n as usize) {
                Err(e) => Err(wrap(Error::LocalVariableTypeTable { table_length: n as usize }, e)),
                Ok((t, p2)) => Ok(
                    (AttributeInfo::LocalVariableTypeTable { local_variable_type_table: t }, p2),
                ),
            },
        }
    } else if is_nm_deprecated(name) {
        Ok((AttributeInfo::Deprecated, pos))
    } else {
        match parse_take(bytes, pos, length as usize) {
            Err(e) => Err(e),
            Ok((info, p)) => Ok(
                (AttributeInfo::Unknown { attribute_name_index: name_index, info }, p),
            ),
        }
    }
}

fn parse_attribute(bytes: &Vec<u8>, pos: usize, pool: &Vec<ConstantPoolInfo>) -> (r: Result<
    (AttributeInfo, usize),
    Error,
>)
    ensures
        match r {
            Ok((v, p)) => sp_attribute(bytes@, pos as int, view_cp_seq(pool@)) == Ok::<
                (SpecAttributeInfo, int),
                Error,
            >((view_attr(v), p as int)) && pos < p <= bytes.len(),
            Err(e) => sp_attribute(bytes@, pos as int, view_cp_seq(pool@)) == Err::<
                (SpecAttributeInfo, int),
                Error,
            >(e),
        },
    decreases bytes@.len() - pos, 1int,
{
    let (ni, p1) = match rd_u16(bytes, pos) {
        Ok(r) => r,
        Err(e) => {
            return Err(e);
        },
    };
    let (length, p2) = match rd_u32(bytes, p1) {
        Ok(r) => r,
        Err(e) => {
            return Err(e);
        },
    };
    match cp_get(pool, ni) {
        Option::None => Err(
            wrap(
                Error::Attribute,
                Error::AttributeInfoNameIndexOutOfBounds { attribute_name_index: ni as usize },
            ),
        ),
        Option::Some(entry) => match entry {
            ConstantPoolInfo::Utf8 { bytes: name } => match parse_attr_switch(
                bytes,
                p2,
                name,
                ni,
                length,
                pool,
            ) {
                Err(e) => Err(
                    wrap(
                        Error::Attribute,
                        wrap(
                            Error::AttributeInfo {
                                attribute_name_index: ni as usize,
                                attribute_length: length as usize,
                            },
                            e,
                        ),
                    ),
                ),
                Ok((a, p3)) => Ok((a, p3)),
            },
            _ => {
                let actual = entry.tag();
                Err(
                    wrap(
                        Error::Attribute,
                        Error::UnexpectedConstantPoolType {
                            index: ni as usize,
                            expected: Tag::Utf8,
                            actual,
                        },
                    ),
                )
            },
        },
    }
}

fn parse_attrs(bytes: &Vec<u8>, pos: usize, n: usize, pool: &Vec<ConstantPoolInfo>) -> (r: Result<
    (Vec<AttributeInfo>, usize),
    Error,
>)
    requires
        pos <= bytes@.len(),
    ensures
        match r {
            Ok((v, p)) => sp_attrs(bytes@, pos as int, n as int, view_cp_seq(pool@)) == Ok::<
                (Seq<SpecAttributeInfo>, int),
                Error,
            >((view_attr_seq(v@), p as int)) && pos <= p <= bytes.len(),
            Err(e) => sp_attrs(bytes@, pos as int, n as int, view_cp_seq(pool@)) == Err::<
                (Seq<SpecAttributeInfo>, int),
                Error,
            >(e),
        },
    decreases bytes@.len() - pos, 2 + n,
{
    let mut out: Vec<AttributeInfo> = Vec::new();
    let mut cur = pos;
    let mut k: usize = 0;
    while k < n
        invariant
            k <= n,
            pos <= cur <= bytes@.len(),
            sp_attrs(bytes@, pos as int, n as int, view_cp_seq(pool@)) == (match sp_attrs(
                bytes@,
                cur as int,
                n - k,
                view_cp_seq(pool@),
            ) {
                Ok((rest, q)) => Ok::<(Seq<SpecAttributeInfo>, int), Error>(
                    (view_attr_seq(out@) + rest, q),
                ),
                Err(e) => Err::<(Seq<SpecAttributeInfo>, int), Error>(e),
            }),
        decreases n - k,
    {
        let ghost out0 = out@;
        match parse_attribute(bytes, cur, pool) {
            Err(e) => {
                return Err(e);
            },
            Ok((x, p)) => {
                out.push(x);
                cur = p;
                k = k + 1;
                proof {
                    assert(out@.drop_last() =~= out0);
                    match sp_attrs(bytes@, cur as int, n - k, view_cp_seq(pool@)) {
                        Ok((rest, _)) => crate::mutf8::lemma_push_prepend(
                            view_attr_seq(out0),
                            view_attr(x),
                            rest,
                        ),
                        Err(_) => {},
                    }
                }
            },
        }
    }
    proof {
        assert(view_attr_seq(out@) + Seq::<SpecAttributeInfo>::empty() =~= view_attr_seq(out@));
    }
    Ok((out, cur))
}

/// One field declaration: access flags, name and descriptor indices, and
/// its attributes.
pub open spec fn sp_field(b: Seq<u8>, i: int, pool: Seq<SpecConstantPoolInfo>) -> Result<
    (SpecFieldInfo, int),
    Error,
> {
    if !have(b, i, 2) {
        Err(incomplete(i, 2))
    } else if !have(b, i + 2, 2) {
        Err(incomplete(i + 2, 2))
    } else if !have(b, i + 4, 2) {
        Err(incomplete(i + 4, 2))
    } else if !have(b, i + 6, 2) {
        Err(incomplete(i + 6, 2))
    } else {
        let ac = u16_at(b, i + 6);
        match sp_attrs(b, i + 8, ac as int, pool) {
            Err(e) => Err(
                wrap_err(
                    Error::FieldInfo,
                    wrap_err(Error::FieldAttributes { attributes_count: ac as usize }, e),
                ),
            ),
            Ok((attrs, p)) => Ok(
                (
                    SpecFieldInfo {
                        access_flags: u16_at(b, i),
                        name_index: u16_at(b, i + 2),
                        descriptor_index: u16_at(b, i + 4),
                        attributes: attrs,
                    },
                    p,
                ),
            ),
        }
    }
}

fn parse_field(bytes: &Vec<u8>, pos: usize, pool: &Vec<ConstantPoolInfo>) -> (r: Result<
    (FieldInfo, usize),
    Error,
>)
    ensures
        match r {
            Ok((v, p)) => sp_field(bytes@, pos as int, view_cp_seq(pool@)) == Ok::<
                (SpecFieldInfo, int),
                Error,
            >((view_field_info(v), p as int)) && pos < p <= bytes.len(),
            Err(e) => sp_field(bytes@, pos as int, view_cp_seq(pool@)) == Err::<
                (SpecFieldInfo, int),
                Error,
            >(e),
        },
{
    let (access_flags, p1) = match rd_u16(bytes, pos) {
        Ok(r) => r,
        Err(e) => {
            return Err(e);
        },
    };
    let (name_index, p2) = match rd_u16(bytes, p1) {
        Ok(r) => r,
        Err(e) => {
            return Err(e);
        },
    };
    let (descriptor_index, p3) = match rd_u16(bytes, p2) {
        Ok(r) => r,
        Err(e) => {
            return Err(e);
        },
    };
    let (ac, p4) = match rd_u16(bytes, p3) {
        Ok(r) => r,
        Err(e) => {
            return Err(e);
        },
    };
    match parse_attrs(bytes, p4, ac as usize, pool) {
        Err(e) => Err(
            wrap(
                Error::FieldInfo,
                wrap(Error::FieldAttributes { attributes_count: ac as usize }, e),
            ),
        ),
        Ok((attributes, p5)) => Ok(
            (FieldInfo { access_flags, name_index, descriptor_index, attributes }, p5),
        ),
    }
}

pub open spec fn sp_field_list(
    b: Seq<u8>,
    i: int,
    n: int,
    pool: Seq<SpecConstantPoolInfo>,
) -> Result<(Seq<SpecFieldInfo>, int), Error>
    decreases n,
{
    if n <= 0 {
        Ok((Seq::empty(), i))
    } else {
        match sp_field(b, i, pool) {
            Err(e) => Err(e),
            Ok((x, p)) => match sp_field_list(b, p, n - 1, pool) {
                Err(e) => Err(e),
                Ok((xs, q)) => Ok((seq![x] + xs, q)),
            },
        }
    }
}

fn parse_field_list(bytes: &Vec<u8>, pos: usize, n: usize, pool: &Vec<ConstantPoolInfo>) -> (r:
    Result<(Vec<FieldInfo>, usize), Error>)
    requires
        pos <= bytes@.len(),
    ensures
        match r {
            Ok((v, p)) => sp_field_list(bytes@, pos as int, n as int, view_cp_seq(pool@)) == Ok::<
                (Seq<SpecFieldInfo>, int),
                Error,
            >((view_field_seq(v@), p as int)) && pos <= p <= bytes.len(),
            Err(e) => sp_field_list(bytes@, pos as int, n as int, view_cp_seq(pool@)) == Err::<
                (Seq<SpecFieldInfo>, int),
                Error,
            >(e),
        },
{
    let mut out: Vec<FieldInfo> = Vec::new();
    let mut cur = pos;
    let mut k: usize = 0;
    while k < n
        invariant
            k <= n,
            pos <= cur <= bytes@.len(),
            sp_field_list(bytes@, pos as int, n as int, view_cp_seq(pool@)) == (
            match sp_field_list(bytes@, cur as int, n - k, view_cp_seq(pool@)) {
                Ok((rest, q)) => Ok::<(Seq<SpecFieldInfo>, int), Error>(
                    (view_field_seq(out@) + rest, q),
                ),
                Err(e) => Err::<(Seq<SpecFieldInfo>, int), Error>(e),
            }),
        decreases n - k,
    {
        let ghost out0 = out@;
        match parse_field(bytes, cur, pool) {
            Err(e) => {
                return Err(e);
            },
            Ok((x, p)) => {
                out.push(x);
                cur = p;
                k = k + 1;
                proof {
                    assert(view_field_seq(out@) =~= view_field_seq(out0).push(view_field_info(x)));
                    match sp_field_list(bytes@, cur as int, n - k, view_cp_seq(pool@)) {
                        Ok((rest, _)) => crate::mutf8::lemma_push_prepend(
                            view_field_seq(out0),
                            view_field_info(x),
                            rest,
                        ),
                        Err(_) => {},
                    }
                }
            },
        }
    }
    proof {
        assert(view_field_seq(out@) + Seq::<SpecFieldInfo>::empty() =~= view_field_seq(out@));
    }
    Ok((out, cur))
}

/// One method declaration: access flags, name and descriptor indices, and
/// its attributes.
pub open spec fn sp_method(b: Seq<u8>, i: int, pool: Seq<SpecConstantPoolInfo>) -> Result<
    (SpecMethodInfo, int),
    Error,
> {
    if !have(b, i, 2) {
        Err(incomplete(i, 2))
    } else if !have(b, i + 2, 2) {
        Err(incomplete(i + 2, 2))
    } else if !have(b, i + 4, 2) {
        Err(incomplete(i + 4, 2))
    } else if !have(b, i + 6, 2) {
        Err(incomplete(i + 6, 2))
    } else {
        let ac = u16_at(b, i + 6);
        match sp_attrs(b, i + 8, ac as int, pool) {
            Err(e) => Err(
                wrap_err(
                    Error::MethodInfo,
                    wrap_err(Error::MethodAttributes { attributes_count: ac as usize }, e),
                ),
            ),
            Ok((attrs, p)) => Ok(
                (
                    SpecMethodInfo {
                        access_flags: u16_at(b, i),
                        name_index: u16_at(b, i + 2),
                        descriptor_index: u16_at(b, i + 4),
                        attributes: attrs,
                    },
                    p,
                ),
            ),
        }
    }
}

fn parse_method(bytes: &Vec<u8>, pos: usize, pool: &Vec<ConstantPoolInfo>) -> (r: Result<
    (MethodInfo, usize),
    Error,
>)
    ensures
        match r {
            Ok((v, p)) => sp_method(bytes@, pos as int, view_cp_seq(pool@)) == Ok::<
                (SpecMethodInfo, int),
                Error,
            >((view_method_info(v), p as int)) && pos < p <= bytes.len(),
            Err(e) => sp_method(bytes@, pos as int, view_cp_seq(pool@)) == Err::<
                (SpecMethodInfo, int),
                Error,
            >(e),
        },
{
    let (access_flags, p1) = match rd_u16(bytes, pos) {
        Ok(r) => r,
        Err(e) => {
            return Err(e);
        },
    };
    let (name_index, p2) = match rd_u16(bytes, p1) {
        Ok(r) => r,
        Err(e) => {
            return Err(e);
        },
    };
    let (descriptor_index, p3) = match rd_u16(bytes, p2) {
        Ok(r) => r,
        Err(e) => {
            return Err(e);
        },
    };
    let (ac, p4) = match rd_u16(bytes, p3) {
        Ok(r) => r,
        Err(e) => {
            return Err(e);
        },
    };
    match parse_attrs(bytes, p4, ac as usize, pool) {
        Err(e) => Err(
            wrap(
                Error::MethodInfo,
                wrap(Error::MethodAttributes { attributes_count: ac as usize }, e),
            ),
        ),
        Ok((attributes, p5)) => Ok(
            (MethodInfo { access_flags, name_index, descriptor_index, attributes }, p5),
        ),
    }
}

pub open spec fn sp_method_list(
    b: Seq<u8>,
    i: int,
    n: int,
    pool: Seq<SpecConstantPoolInfo>,
) -> Result<(Seq<SpecMethodInfo>, int), Error>
    decreases n,
{
    if n <= 0 {
        Ok((Seq::empty(), i))
    } else {
        match sp_method(b, i, pool) {
            Err(e) => Err(e),
            Ok((x, p)) => match sp_method_list(b, p, n - 1, pool) {
                Err(e) => Err(e),
                Ok((xs, q)) => Ok((seq![x] + xs, q)),
            },
        }
    }
}

fn parse_method_list(bytes: &Vec<u8>, pos: usize, n: usize, pool: &Vec<ConstantPoolInfo>) -> (r:
    Result<(Vec<MethodInfo>, usize), Error>)
    requires
        pos <= bytes@.len(),
    ensures
        match r {
            Ok((v, p)) => sp_method_list(bytes@, pos as int, n as int, view_cp_seq(pool@)) == Ok::<
                (Seq<SpecMethodInfo>, int),
                Error,
            >((view_method_seq(v@), p as int)) && pos <= p <= bytes.len(),
            Err(e) => sp_method_list(bytes@, pos as int, n as int, view_cp_seq(pool@)) == Err::<
                (Seq<SpecMethodInfo>, int),
                Error,
            >(e),
        },
{
    let mut out: Vec<MethodInfo> = Vec::new();
    let mut cur = pos;
    let mut k: usize = 0;
    while k < n
        invariant
            k <= n,
            pos <= cur <= bytes@.len(),
            sp_method_list(bytes@, pos as int, n as int, view_cp_seq(pool@)) == (
            match sp_method_list(bytes@, cur as int, n - k, view_cp_seq(pool@)) {
                Ok((rest, q)) => Ok::<(Seq<SpecMethodInfo>, int), Error>(
                    (view_method_seq(out@) + rest, q),
                ),
                Err(e) => Err::<(Seq<SpecMethodInfo>, int), Error>(e),
            }),
        decreases n - k,
    {
        let ghost out0 = out@;
        match parse_method(bytes, cur, pool) {
            Err(e) => {
                return Err(e);
            },
            Ok((x, p)) => {
                out.push(x);
                cur = p;
                k = k + 1;
                proof {
                    assert(view_method_seq(out@) =~= view_method_seq(out0).push(
                        view_method_info(x),
                    ));
                    match sp_method_list(bytes@, cur as int, n - k, view_cp_seq(pool@)) {
                        Ok((rest, _)) => crate::mutf8::lemma_push_prepend(
                            view_method_seq(out0),
                            view_method_info(x),
                            rest,
                        ),
                        Err(_) => {},
                    }
                }
            },
        }
    }
    proof {
        assert(view_method_seq(out@) + Seq::<SpecMethodInfo>::empty() =~= view_method_seq(out@));
    }
    Ok((out, cur))
}

/// The whole class file, save for the outermost `ClassFile` error context:
/// magic, versions, the complete constant pool — whose internal
/// cross-references must all tag-match before anything later is parsed —
/// and then every later structure validated against that pool.
pub open spec fn sp_class_file_inner(b: Seq<u8>) -> Result<(SpecClassFile, int), Error> {
    if !have(b, 0, 4) {
        Err(incomplete(0, 4))
    } else if !(b[0] == 0xca && b[1] == 0xfe && b[2] == 0xba && b[3] == 0xbe) {
        Err(Error::Magic)
    } else if !have(b, 4, 2) {
        Err(incomplete(4, 2))
    } else if !have(b, 6, 2) {
        Err(incomplete(6, 2))
    } else if !have(b, 8, 2) {
        Err(incomplete(8, 2))
    } else {
        let count = u16_at(b, 8);
        match sp_cp_entries(b, 10, count as int - 1, 0) {
            Err(e) => Err(wrap_err(Error::ConstantPool { constant_pool_count: count as usize }, e)),
            Ok((pool, p)) => if sp_validate_pool(pool, 0) is Some {
                Err(
                    wrap_err(
                        Error::ConstantPool { constant_pool_count: count as usize },
                        sp_validate_pool(pool, 0)->Some_0,
                    ),
                )
            } else if !have(b, p, 2) {
                Err(incomplete(p, 2))
            } else {
                match sp_cp_index_tag(b, p + 2, pool, Tag::Class) {
                    Err(e) => Err(e),
                    Ok(this_class) => match sp_maybe_cp_index_tag(b, p + 4, pool, Tag::Class) {
                        Err(e) => Err(e),
                        Ok(super_class) => if !have(b, p + 6, 2) {
                            Err(incomplete(p + 6, 2))
                        } else {
                            let ic = u16_at(b, p + 6);
                            match sp_u16_list(b, p + 8, ic as int) {
                                Err(e) => Err(
                                    wrap_err(
                                        Error::Interfaces { interfaces_count: ic as usize },
                                        e,
                                    ),
                                ),
                                Ok((interfaces, q)) => if !have(b, q, 2) {
                                    Err(incomplete(q, 2))
                                } else {
                                    let fc = u16_at(b, q);
                                    match sp_field_list(b, q + 2, fc as int, pool) {
                                        Err(e) => Err(
                                            wrap_err(
                                                Error::Fields { fields_count: fc as usize },
                                                e,
                                            ),
                                        ),
                                        Ok((fields, s)) => if !have(b, s, 2) {
                                            Err(incomplete(s, 2))
                                        } else {
                                            let mc = u16_at(b, s);
                                            match sp_method_list(b, s + 2, mc as int, pool) {
                                                Err(e) => Err(
                                                    wrap_err(
                                                        Error::Methods {
                                                            methods_count: mc as usize,
                                                        },
                                                        e,
                                                    ),
                                                ),
                                                Ok((methods, t)) => if !have(b, t, 2) {
                                                    Err(incomplete(t, 2))
                                                } else {
                                                    let ac = u16_at(b, t);
                                                    match sp_attrs(b, t + 2, ac as int, pool) {
                                                        Err(e) => Err(
                                                            wrap_err(
                                                                Error::ClassAttributes {
                                                                    attributes_count: ac as usize,
                                                                },
                                                                e,
                                                            ),
                                                        ),
                                                        Ok((attributes, u)) => Ok(
                                                            (
                                                                SpecClassFile {
                                                                    magic: 0xcafebabe,
                                                                    minor_version: u16_at(b, 4),
                                                                    major_version: u16_at(b, 6),
                                                                    constant_pool_count: count,
                                                                    constant_pool: pool,
                                                                    access_flags: u16_at(b, p),
                                                                    this_class,
                                                                    super_class,
                                                                    interfaces,
                                                                    fields,
                                                                    methods,
                                                                    attributes,
                                                                },
                                                                u,
                                                            ),
                                                        ),
                                                    }
                                                },
                                            }
                                        },
                                    }
                                },
                            }
                        },
                    },
                }
            },
        }
    }
}

/// What `parse_class_file` returns on every input: the parsed class file
/// and the number of bytes consumed, or the structured error, wrapped in
/// the outermost `ClassFile` context.
pub open spec fn sp_class_file(b: Seq<u8>) -> Result<(SpecClassFile, int), Error> {
    match sp_class_file_inner(b) {
        Err(e) => Err(wrap_err(Error::ClassFile, e)),
        Ok(v) => Ok(v),
    }
}

/// Parses one class file from a byte buffer. On success the returned value
/// is exactly the one the specification function `sp_class_file` decodes;
/// on failure the returned error is exactly the structured error it names,
/// so every accepted and every rejected input is pinned down.
pub fn parse_class_file(input: &Vec<u8>) -> (r: Result<ClassFile, Error>)
    ensures
        match r {
            Ok(cf) => sp_class_file(input@) is Ok && view_class_file(cf) == sp_class_file(
                input@,
            )->Ok_0.0,
            Err(e) => sp_class_file(input@) == Err::<(SpecClassFile, int), Error>(e),
        },
{
    match parse_class_file_inner(input) {
        Err(e) => Err(wrap(Error::ClassFile, e)),
        Ok((cf, _)) => Ok(cf),
    }
}

fn parse_class_file_inner(input: &Vec<u8>) -> (r: Result<(ClassFile, usize), Error>)
    ensures
        match r {
            Ok((cf, p)) => sp_class_file_inner(input@) == Ok::<(SpecClassFile, int), Error>(
                (view_class_file(cf), p as int),
            ),
            Err(e) => sp_class_file_inner(input@) == Err::<(SpecClassFile, int), Error>(e),
        },
{
    let bytes = input;
    if bytes.len() < 4 {
        return Err(Error::Incomplete { at: 0, needed: 4 });
    }
    if !(bytes[0] == 0xca && bytes[1] == 0xfe && bytes[2] == 0xba && bytes[3] == 0xbe) {
        return Err(Error::Magic);
    }
    let (minor_version, _) = match rd_u16(bytes, 4) {
        Ok(r) => r,
        Err(e) => {
            return Err(e);
        },
    };
    let (major_version, _) = match rd_u16(bytes, 6) {
        Ok(r) => r,
        Err(e) => {
            return Err(e);
        },
    };
    let (count, p0) = match rd_u16(bytes, 8) {
        Ok(r) => r,
        Err(e) => {
            return Err(e);
        },
    };
    let slots = if count == 0 {
        0
    } else {
        (count - 1) as usize
    };
    proof {
        assert(slots as int == (if count as int - 1 >= 0 {
            count as int - 1
        } else {
            count as int - 1
        }) || count == 0);
        // the spec recursion treats a non-positive slot count as empty
        assert(count == 0 ==> sp_cp_entries(input@, 10, count as int - 1, 0) == sp_cp_entries(
            input@,
            10,
            0,
            0,
        ));
    }
    let (pool, p1) = match parse_cp_entries(bytes, p0, slots) {
        Ok(r) => r,
        Err(e) => {
            return Err(wrap(Error::ConstantPool { constant_pool_count: count as usize }, e));
        },
    };
    // every cross-reference inside the pool must tag-match before anything
    // later is parsed against it
    match validate_pool(&pool) {
        Some(e) => {
            return Err(wrap(Error::ConstantPool { constant_pool_count: count as usize }, e));
        },
        None => {},
    }
    let (access_flags, p2) = match rd_u16(bytes, p1) {
        Ok(r) => r,
        Err(e) => {
            return Err(e);
        },
    };
    let (this_class, p3) = match cp_index_tag(bytes, p2, &pool, Tag::Class) {
        Ok(r) => r,
        Err(e) => {
            return Err(e);
        },
    };
    let (super_class, p4) = match maybe_cp_index_tag(bytes, p3, &pool, Tag::Class) {
        Ok(r) => r,
        Err(e) => {
            return Err(e);
        },
    };
    let (ic, p5) = match rd_u16(bytes, p4) {
        Ok(r) => r,
        Err(e) => {
            return Err(e);
        },
    };
    let (interfaces, p6) = match parse_u16_list(bytes, p5, ic as usize) {
        Ok(r) => r,
        Err(e) => {
            return Err(wrap(Error::Interfaces { interfaces_count: ic as usize }, e));
        },
    };
    let (fc, p7) = match rd_u16(bytes, p6) {
        Ok(r) => r,
        Err(e) => {
            return Err(e);
        },
    };
    let (fields, p8) = match parse_field_list(bytes, p7, fc as usize, &pool) {
        Ok(r) => r,
        Err(e) => {
            return Err(wrap(Error::Fields { fields_count: fc as usize }, e));
        },
    };
    let (mc, p9) = match rd_u16(bytes, p8) {
        Ok(r) => r,
        Err(e) => {
            return Err(e);
        },
    };
    let (methods, p10) = match parse_method_list(bytes, p9, mc as usize, &pool) {
        Ok(r) => r,
        Err(e) => {
            return Err(wrap(Error::Methods { methods_count: mc as usize }, e));
        },
    };
    let (ac, p11) = match rd_u16(bytes, p10) {
        Ok(r) => r,
        Err(e) => {
            return Err(e);
        },
    };
    let (attributes, p12) = match parse_attrs(bytes, p11, ac as usize, &pool) {
        Ok(r) => r,
        Err(e) => {
            return Err(wrap(Error::ClassAttributes { attributes_count: ac as usize }, e));
        },
    };
    Ok(
        (
            ClassFile {
                magic: 0xcafebabe,
                minor_version,
                major_version,
                constant_pool_count: count,
                constant_pool: pool,
                access_flags,
                this_class,
                super_class,
                interfaces,
                fields,
                methods,
                attributes,
            },
            p12,
        ),
    )
}

/// The reference check one constant-pool entry must pass: every index a
/// pool entry carries must point at an entry of the statically expected
/// tag. The two bytes of a `MethodHandle` of invoke-static or
/// invoke-special kind may name a method of a class or of an interface;
/// every other usage expects exactly one tag. A `Long`, `Double`,
/// `Integer`, `Float`, `Utf8` or placeholder entry carries no reference.
pub open spec fn sp_entry_refs_check(
    pool: Seq<SpecConstantPoolInfo>,
    e: SpecConstantPoolInfo,
) -> Option<Error> {
    match e {
        SpecConstantPoolInfo::Class { name_index } => sp_check_tag(
            pool,
            name_index as int,
            Tag::Utf8,
        ),
        SpecConstantPoolInfo::FieldRef { class_index, name_and_type_index } => match sp_check_tag(
            pool,
            class_index as int,
            Tag::Class,
        ) {
            Some(err) => Some(err),
            None => sp_check_tag(pool, name_and_type_index as int, Tag::NameAndType),
        },
        SpecConstantPoolInfo::MethodRef { class_index, name_and_type_index } => match sp_check_tag(
            pool,
            class_index as int,
            Tag::Class,
        ) {
            Some(err) => Some(err),
            None => sp_check_tag(pool, name_and_type_index as int, Tag::NameAndType),
        },
        SpecConstantPoolInfo::InterfaceMethodRef { class_index, name_and_type_index } => match
            sp_check_tag(pool, class_index as int, Tag::Class) {
            Some(err) => Some(err),
            None => sp_check_tag(pool, name_and_type_index as int, Tag::NameAndType),
        },
        SpecConstantPoolInfo::String { string_index } => sp_check_tag(
            pool,
            string_index as int,
            Tag::Utf8,
        ),
        SpecConstantPoolInfo::NameAndType { name_index, descriptor_index } => match sp_check_tag(
            pool,
            name_index as int,
            Tag::Utf8,
        ) {
            Some(err) => Some(err),
            None => sp_check_tag(pool, descriptor_index as int, Tag::Utf8),
        },
        SpecConstantPoolInfo::MethodHandle { reference_kind } => match reference_kind {
            ReferenceKind::GetField { reference_index } => sp_check_tag(
                pool,
                reference_index as int,
                Tag::FieldRef,
            ),
            ReferenceKind::GetStatic { reference_index } => sp_check_tag(
                pool,
                reference_index as int,
                Tag::FieldRef,
            ),
            ReferenceKind::PutField { reference_index } => sp_check_tag(
                pool,
                reference_index as int,
                Tag::FieldRef,
            ),
            ReferenceKind::PutStatic { reference_index } => sp_check_tag(
                pool,
                reference_index as int,
                Tag::FieldRef,
            ),
            ReferenceKind::InvokeVirtual { reference_index } => sp_check_tag(
                pool,
                reference_index as int,
                Tag::MethodRef,
            ),
            ReferenceKind::NewInvokeSpecial { reference_index } => sp_check_tag(
                pool,
                reference_index as int,
                Tag::MethodRef,
            ),
            ReferenceKind::InvokeStatic { reference_index } => sp_check_tag_either_method(
                pool,
                reference_index as int,
            ),
            ReferenceKind::InvokeSpecial { reference_index } => sp_check_tag_either_method(
                pool,
                reference_index as int,
            ),
            ReferenceKind::InvokeInterface { reference_index } => sp_check_tag(
                pool,
                reference_index as int,
                Tag::InterfaceMethodRef,
            ),
        },
        SpecConstantPoolInfo::MethodType { descriptor_index } => sp_check_tag(
            pool,
            descriptor_index as int,
            Tag::Utf8,
        ),
        SpecConstantPoolInfo::InvokeDynamic { name_and_type_index, .. } => sp_check_tag(
            pool,
            name_and_type_index as int,
            Tag::NameAndType,
        ),
        _ => None,
    }
}

/// A reference that may name a method of a class or of an interface; the
/// mismatch error names the class-method tag as the expected one.
pub open spec fn sp_check_tag_either_method(pool: Seq<SpecConstantPoolInfo>, index: int) -> Option<
    Error,
> {
    match spec_cp_get(pool, index) {
        Option::None => Some(Error::ConstantPoolIndexOutOfBounds { index: index as usize }),
        Option::Some(e) => if spec_tag_of(e) == Tag::MethodRef || spec_tag_of(e)
            == Tag::InterfaceMethodRef {
            None
        } else {
            Some(
                Error::UnexpectedConstantPoolType {
                    index: index as usize,
                    expected: Tag::MethodRef,
                    actual: spec_tag_of(e),
                },
            )
        },
    }
}

/// The whole pool's cross-reference check, slot by slot from `k` on: the
/// first entry whose reference fails, wrapped with its zero-based slot.
pub open spec fn sp_validate_pool(pool: Seq<SpecConstantPoolInfo>, k: int) -> Option<Error>
    decreases pool.len() - k,
{
    if k < 0 || k >= pool.len() {
        None
    } else {
        match sp_entry_refs_check(pool, pool[k]) {
            Some(e) => Some(wrap_err(Error::ConstantPoolEntry { index: k as usize }, e)),
            None => sp_validate_pool(pool, k + 1),
        }
    }
}

fn check_tag_either_method(pool: &Vec<ConstantPoolInfo>, index: u16) -> (r: Option<Error>)
    ensures
        r == sp_check_tag_either_method(view_cp_seq(pool@), index as int),
{
    match cp_get(pool, index) {
        Option::None => Some(Error::ConstantPoolIndexOutOfBounds { index: index as usize }),
        Option::Some(e) => {
            let actual = e.tag();
            if actual == Tag::MethodRef || actual == Tag::InterfaceMethodRef {
                None
            } else {
                Some(
                    Error::UnexpectedConstantPoolType {
                        index: index as usize,
                        expected: Tag::MethodRef,
                        actual,
                    },
                )
            }
        },
    }
}

fn check_entry_refs(pool: &Vec<ConstantPoolInfo>, e: &ConstantPoolInfo) -> (r: Option<Error>)
    ensures
        r == sp_entry_refs_check(view_cp_seq(pool@), view_cp_info(*e)),
{
    match e {
        ConstantPoolInfo::Class { name_index } => check_tag(pool, *name_index, Tag::Utf8),
        ConstantPoolInfo::FieldRef { class_index, name_and_type_index } => match check_tag(
            pool,
            *class_index,
            Tag::Class,
        ) {
            Some(err) => Some(err),
            None => check_tag(pool, *name_and_type_index, Tag::NameAndType),
        },
        ConstantPoolInfo::MethodRef { class_index, name_and_type_index } => match check_tag(
            pool,
            *class_index,
            Tag::Class,
        ) {
            Some(err) => Some(err),
            None => check_tag(pool, *name_and_type_index, Tag::NameAndType),
        },
        ConstantPoolInfo::InterfaceMethodRef { class_index, name_and_type_index } => match
            check_tag(pool, *class_index, Tag::Class) {
            Some(err) => Some(err),
            None => check_tag(pool, *name_and_type_index, Tag::NameAndType),
        },
        ConstantPoolInfo::String { string_index } => check_tag(pool, *string_index, Tag::Utf8),
        ConstantPoolInfo::NameAndType { name_index, descriptor_index } => match check_tag(
            pool,
            *name_index,
            Tag::Utf8,
        ) {
            Some(err) => Some(err),
            None => check_tag(pool, *descriptor_index, Tag::Utf8),
        },
        ConstantPoolInfo::MethodHandle { reference_kind } => match reference_kind {
            ReferenceKind::GetField { reference_index } => check_tag(
                pool,
                *reference_index,
                Tag::FieldRef,
            ),
            ReferenceKind::GetStatic { reference_index } => check_tag(
                pool,
                *reference_index,
                Tag::FieldRef,
            ),
            ReferenceKind::PutField { reference_index } => check_tag(
                pool,
                *reference_index,
                Tag::FieldRef,
            ),
            ReferenceKind::PutStatic { reference_index } => check_tag(
                pool,
                *reference_index,
                Tag::FieldRef,
            ),
            ReferenceKind::InvokeVirtual { reference_index } => check_tag(
                pool,
                *reference_index,
                Tag::MethodRef,
            ),
            ReferenceKind::NewInvokeSpecial { reference_index } => check_tag(
                pool,
                *reference_index,
                Tag::MethodRef,
            ),
            ReferenceKind::InvokeStatic { reference_index } => check_tag_either_method(
                pool,
                *reference_index,
            ),
            ReferenceKind::InvokeSpecial { reference_index } => check_tag_either_method(
                pool,
                *reference_index,
            ),
            ReferenceKind::InvokeInterface { reference_index } => check_tag(
                pool,
                *reference_index,
                Tag::InterfaceMethodRef,
            ),
        },
        ConstantPoolInfo::MethodType { descriptor_index } => check_tag(
            pool,
            *descriptor_index,
            Tag::Utf8,
        ),
        ConstantPoolInfo::InvokeDynamic { name_and_type_index, .. } => check_tag(
            pool,
            *name_and_type_index,
            Tag::NameAndType,
        ),
        _ => None,
    }
}

fn validate_pool(pool: &Vec<ConstantPoolInfo>) -> (r: Option<Error>)
    ensures
        r == sp_validate_pool(view_cp_seq(pool@), 0),
{
    let n = pool.len();
    let mut k: usize = 0;
    while k < n
        invariant
            k <= n,
            n == pool@.len(),
            sp_validate_pool(view_cp_seq(pool@), 0) == sp_validate_pool(
                view_cp_seq(pool@),
                k as int,
            ),
        decreases n - k,
    {
        match check_entry_refs(pool, &pool[k]) {
            Some(e) => {
                return Some(wrap(Error::ConstantPoolEntry { index: k }, e));
            },
            None => {},
        }
        k = k + 1;
    }
    None
}

/// Every `Long` or `Double` entry that the pool decoder produces is followed
/// by an `Unusable` placeholder slot, and fills exactly one more slot than
/// announced only when the placeholder itself spills past the announced end.
pub proof fn lemma_wide_entries_have_placeholders(b: Seq<u8>, i: int, slots: int, idx: int)
    requires
        sp_cp_entries(b, i, slots, idx) is Ok,
    ensures
        ({
            let es = sp_cp_entries(b, i, slots, idx)->Ok_0.0;
            &&& forall|k: int|
                0 <= k < es.len() && (spec_tag_of(#[trigger] es[k]) == Tag::Long || spec_tag_of(
                    es[k],
                ) == Tag::Double) ==> k + 1 < es.len() && es[k + 1]
                    == SpecConstantPoolInfo::Unusable
            &&& (slots <= 0 ==> es.len() == 0)
            &&& (slots >= 0 ==> slots <= es.len() <= slots + 1)
        }),
    decreases (if slots >= 0 {
        slots + 1
    } else {
        0
    }),
{
    if slots <= 0 {
    } else {
        let es = sp_cp_entries(b, i, slots, idx)->Ok_0.0;
        match sp_cp_info(b, i) {
            Err(_) => {},
            Ok((info, p)) => {
                let wide = spec_tag_of(info) == Tag::Long || spec_tag_of(info) == Tag::Double;
                if wide {
                    let rest = sp_cp_entries(b, p, slots - 2, idx + 2)->Ok_0.0;
                    lemma_wide_entries_have_placeholders(b, p, slots - 2, idx + 2);
                    assert(es =~= seq![info, SpecConstantPoolInfo::Unusable] + rest);
                    assert forall|k: int|
                        0 <= k < es.len() && (spec_tag_of(#[trigger] es[k]) == Tag::Long
                            || spec_tag_of(es[k]) == Tag::Double) implies k + 1 < es.len() && es[k
                        + 1] == SpecConstantPoolInfo::Unusable by {
                        if k >= 2 {
                            assert(es[k] == rest[k - 2]);
                            assert(rest[k - 2 + 1] == SpecConstantPoolInfo::Unusable);
                        }
                    }
                } else {
                    let rest = sp_cp_entries(b, p, slots - 1, idx + 1)->Ok_0.0;
                    lemma_wide_entries_have_placeholders(b, p, slots - 1, idx + 1);
                    assert(es =~= seq![info] + rest);
                    assert forall|k: int|
                        0 <= k < es.len() && (spec_tag_of(#[trigger] es[k]) == Tag::Long
                            || spec_tag_of(es[k]) == Tag::Double) implies k + 1 < es.len() && es[k
                        + 1] == SpecConstantPoolInfo::Unusable by {
                        if k >= 1 {
                            assert(es[k] == rest[k - 1]);
                            assert(rest[k - 1 + 1] == SpecConstantPoolInfo::Unusable);
                        }
                    }
                }
            },
        }
    }
}

/// In any successfully parsed class file, the slot after a `Long` or
/// `Double` entry holds the `Unusable` placeholder, and a reference to that
/// slot under any expected tag fails with the exact placeholder mismatch
/// error: the placeholder can never be referenced.
pub proof fn lemma_placeholder_not_usable(b: Seq<u8>, k: int, tag: Tag)
    requires
        sp_class_file(b) is Ok,
        0 <= k < sp_class_file(b)->Ok_0.0.constant_pool.len(),
        spec_tag_of(sp_class_file(b)->Ok_0.0.constant_pool[k]) == Tag::Long || spec_tag_of(
            sp_class_file(b)->Ok_0.0.constant_pool[k],
        ) == Tag::Double,
        tag != Tag::Unusable,
    ensures
        ({
            let pool = sp_class_file(b)->Ok_0.0.constant_pool;
            &&& k + 1 < pool.len()
            &&& pool[k + 1] == SpecConstantPoolInfo::Unusable
            &&& sp_check_tag(pool, k + 2, tag) == Some(
                Error::UnexpectedConstantPoolType {
                    index: (k + 2) as usize,
                    expected: tag,
                    actual: Tag::Unusable,
                },
            )
        }),
{
    let count = u16_at(b, 8);
    lemma_wide_entries_have_placeholders(b, 10, count as int - 1, 0);
}

/// A required reference read from the byte stream can never name a
/// placeholder slot: whatever tag the usage expects, the read fails with
/// the exact placeholder mismatch error.
pub proof fn lemma_placeholder_reference_fails(
    b: Seq<u8>,
    i: int,
    pool: Seq<SpecConstantPoolInfo>,
    tag: Tag,
)
    requires
        have(b, i, 2),
        spec_cp_get(pool, u16_at(b, i) as int) == Some(SpecConstantPoolInfo::Unusable),
        tag != Tag::Unusable,
    ensures
        sp_cp_index_tag(b, i, pool, tag) == Err::<u16, Error>(
            Error::UnexpectedConstantPoolType {
                index: u16_at(b, i) as usize,
                expected: tag,
                actual: Tag::Unusable,
            },
        ),
{
}

/// A parsed constant pool holds at least the announced number of slots:
/// `constant_pool_count - 1`, one more only when a wide entry stands in the
/// last announced slot.
pub proof fn lemma_pool_len(b: Seq<u8>)
    requires
        sp_class_file(b) is Ok,
    ensures
        ({
            let cf = sp_class_file(b)->Ok_0.0;
            &&& cf.constant_pool_count > 0 ==> cf.constant_pool_count - 1 <= cf.constant_pool.len()
                <= cf.constant_pool_count
            &&& cf.constant_pool_count == 0 ==> cf.constant_pool.len() == 0
        }),
{
    let count = u16_at(b, 8);
    lemma_wide_entries_have_placeholders(b, 10, count as int - 1, 0);
}

} // verus!
