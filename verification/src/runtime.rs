//! The runtime constant pool: the parsed constant pool converted into
//! symbolic references and literal values. Class, field and method constants
//! become eager symbolic references; numeric constants become resolved
//! literals; string constants stay deferred, holding only the index of
//! their backing `Utf8` entry, until the resolution engine materializes
//! them.

use crate::model::{spec_cp_get, spec_tag_of, ConstantPoolInfo, SpecConstantPoolInfo, Tag};
use crate::mutf8::{decode_chars_from, decode_string, DecodeError, ModifiedUtf8String};
use crate::sig;
use crate::symref;
use vstd::prelude::*;

verus! {

/// A primitive or deferred runtime value. Floating-point constants are kept
/// as their raw bit patterns, exactly as the class file stores them.
#[derive(Debug)]
pub enum Value {
    Int(i32),
    Long(i64),
    Float { bits: u32 },
    Double { bits: u64 },
    Null,
    /// A string literal materialized as its UTF-16 code units.
    StringLiteral(Vec<u16>),
}

pub enum SpecValue {
    Int(i32),
    Long(i64),
    Float { bits: u32 },
    Double { bits: u64 },
    Null,
    StringLiteral(Seq<u16>),
}

pub open spec fn view_value(v: Value) -> SpecValue {
    match v {
        Value::Int(x) => SpecValue::Int(x),
        Value::Long(x) => SpecValue::Long(x),
        Value::Float { bits } => SpecValue::Float { bits },
        Value::Double { bits } => SpecValue::Double { bits },
        Value::Null => SpecValue::Null,
        Value::StringLiteral(u) => SpecValue::StringLiteral(u@),
    }
}

/// A copy of a value with the same view.
pub fn clone_value(v: &Value) -> (r: Value)
    ensures
        view_value(r) == view_value(*v),
{
    match v {
        Value::Int(x) => Value::Int(*x),
        Value::Long(x) => Value::Long(*x),
        Value::Float { bits } => Value::Float { bits: *bits },
        Value::Double { bits } => Value::Double { bits: *bits },
        Value::Null => Value::Null,
        Value::StringLiteral(u) => {
            let mut out: Vec<u16> = Vec::new();
            let mut k: usize = 0;
            while k < u.len()
                invariant
                    k <= u@.len(),
                    out@ =~= u@.subrange(0, k as int),
                decreases u@.len() - k,
            {
                out.push(u[k]);
                k = k + 1;
            }
            proof {
                assert(out@ =~= u@);
            }
            Value::StringLiteral(out)
        },
    }
}

/// Why the parsed constant pool could not be converted: a cross-reference
/// chain inside the pool names a missing or wrongly-tagged entry, an
/// undecodable string, or an ill-formed descriptor.
#[derive(Debug)]
pub enum PoolError {
    OutOfBounds { index: usize },
    WrongTag { index: usize, expected: Tag, actual: Tag },
    BadString { index: usize, cause: DecodeError },
    BadDescriptor { index: usize },
    /// The entry at `index` is not a string value, where one is required.
    NotStringValue { index: usize },
    /// The entry at `index` is not a loadable literal.
    NotLiteral { index: usize },
}

/// One converted constant-pool slot.
#[derive(Debug)]
pub enum RuntimeConstantPoolEntry {
    /// A symbolic reference to a class.
    ClassRef(symref::Class),
    /// A symbolic reference to a method.
    MethodRef(symref::Method),
    /// A symbolic reference to an object field.
    FieldRef(symref::Field),
    /// A literal value that has undergone resolution.
    ResolvedLiteral(Value),
    /// An unresolved reference to a modified-UTF-8 string in the pool.
    UnresolvedString(u16),
    /// A raw modified-UTF-8 string value, used for names and descriptors.
    StringValue(ModifiedUtf8String),
}

pub enum SpecRcpEntry {
    ClassRef(symref::SpecClassRef),
    MethodRef(symref::SpecMethodRef),
    FieldRef(symref::SpecFieldRef),
    ResolvedLiteral(SpecValue),
    UnresolvedString(u16),
    StringValue(Seq<u8>),
}

pub open spec fn view_rcp_entry(e: RuntimeConstantPoolEntry) -> SpecRcpEntry {
    match e {
        RuntimeConstantPoolEntry::ClassRef(c) => SpecRcpEntry::ClassRef(symref::view_class_ref(c)),
        RuntimeConstantPoolEntry::MethodRef(m) => SpecRcpEntry::MethodRef(
            symref::view_method_ref(m),
        ),
        RuntimeConstantPoolEntry::FieldRef(f) => SpecRcpEntry::FieldRef(symref::view_field_ref(f)),
        RuntimeConstantPoolEntry::ResolvedLiteral(v) => SpecRcpEntry::ResolvedLiteral(
            view_value(v),
        ),
        RuntimeConstantPoolEntry::UnresolvedString(i) => SpecRcpEntry::UnresolvedString(i),
        RuntimeConstantPoolEntry::StringValue(s) => SpecRcpEntry::StringValue(s@),
    }
}

pub open spec fn view_rcp_slot(e: Option<RuntimeConstantPoolEntry>) -> Option<SpecRcpEntry> {
    match e {
        Option::None => None,
        Option::Some(x) => Some(view_rcp_entry(x)),
    }
}

pub open spec fn view_rcp_seq(s: Seq<Option<RuntimeConstantPoolEntry>>) -> Seq<Option<SpecRcpEntry>>
    decreases s,
{
    if s.len() == 0 {
        Seq::empty()
    } else {
        view_rcp_seq(s.drop_last()).push(view_rcp_slot(s.last()))
    }
}

/// The decoded text of the `Utf8` entry at one-based `idx`.
pub open spec fn sp_utf8_chars_at(pool: Seq<SpecConstantPoolInfo>, idx: int) -> Result<
    Seq<char>,
    PoolError,
> {
    match spec_cp_get(pool, idx) {
        Option::None => Err(PoolError::OutOfBounds { index: idx as usize }),
        Option::Some(e) => match e {
            SpecConstantPoolInfo::Utf8 { bytes } => match decode_chars_from(bytes, 0) {
                Ok(cs) => Ok(cs),
                Err(de) => Err(PoolError::BadString { index: idx as usize, cause: de }),
            },
            _ => Err(
                PoolError::WrongTag {
                    index: idx as usize,
                    expected: Tag::Utf8,
                    actual: spec_tag_of(e),
                },
            ),
        },
    }
}

/// The class signature named by the `Class` entry at one-based `idx`.
pub open spec fn sp_class_sig_at(pool: Seq<SpecConstantPoolInfo>, idx: int) -> Result<
    sig::SpecClass,
    PoolError,
> {
    match spec_cp_get(pool, idx) {
        Option::None => Err(PoolError::OutOfBounds { index: idx as usize }),
        Option::Some(e) => match e {
            SpecConstantPoolInfo::Class { name_index } => match sp_utf8_chars_at(
                pool,
                name_index as int,
            ) {
                Err(pe) => Err(pe),
                Ok(cs) => match sig::sp_class_sig(cs) {
                    Option::None => Err(PoolError::BadDescriptor { index: name_index as usize }),
                    Option::Some(c) => Ok(c),
                },
            },
            _ => Err(
                PoolError::WrongTag {
                    index: idx as usize,
                    expected: Tag::Class,
                    actual: spec_tag_of(e),
                },
            ),
        },
    }
}

/// The name and descriptor strings of the `NameAndType` entry at `idx`.
pub open spec fn sp_nat_at(pool: Seq<SpecConstantPoolInfo>, idx: int) -> Result<
    (Seq<char>, Seq<char>),
    PoolError,
> {
    match spec_cp_get(pool, idx) {
        Option::None => Err(PoolError::OutOfBounds { index: idx as usize }),
        Option::Some(e) => match e {
            SpecConstantPoolInfo::NameAndType { name_index, descriptor_index } => match
                sp_utf8_chars_at(pool, name_index as int) {
                Err(pe) => Err(pe),
                Ok(n) => match sp_utf8_chars_at(pool, descriptor_index as int) {
                    Err(pe) => Err(pe),
                    Ok(d) => Ok((n, d)),
                },
            },
            _ => Err(
                PoolError::WrongTag {
                    index: idx as usize,
                    expected: Tag::NameAndType,
                    actual: spec_tag_of(e),
                },
            ),
        },
    }
}

/// What one parsed pool slot (zero-based `k`) converts to: a symbolic
/// reference, a literal, a deferred string, a raw string, or nothing.
pub open spec fn sp_rcp_slot_of(pool: Seq<SpecConstantPoolInfo>, k: int) -> Result<
    Option<SpecRcpEntry>,
    PoolError,
> {
    match pool[k] {
        SpecConstantPoolInfo::Class { name_index } => match sp_class_sig_at(pool, k + 1) {
            Err(pe) => Err(pe),
            Ok(c) => Ok(Some(SpecRcpEntry::ClassRef(symref::SpecClassRef { sig: c }))),
        },
        SpecConstantPoolInfo::FieldRef { class_index, name_and_type_index } => match
            sp_class_sig_at(pool, class_index as int) {
            Err(pe) => Err(pe),
            Ok(c) => match sp_nat_at(pool, name_and_type_index as int) {
                Err(pe) => Err(pe),
                Ok((n, d)) => match sig::sp_field_descriptor(d) {
                    Option::None => Err(
                        PoolError::BadDescriptor { index: name_and_type_index as usize },
                    ),
                    Option::Some(ty) => Ok(
                        Some(
                            SpecRcpEntry::FieldRef(
                                symref::SpecFieldRef {
                                    class: symref::SpecClassRef { sig: c },
                                    sig: sig::SpecField { name: n, ty },
                                },
                            ),
                        ),
                    ),
                },
            },
        },
        SpecConstantPoolInfo::MethodRef { class_index, name_and_type_index } => match
            sp_class_sig_at(pool, class_index as int) {
            Err(pe) => Err(pe),
            Ok(c) => match sp_nat_at(pool, name_and_type_index as int) {
                Err(pe) => Err(pe),
                Ok((n, d)) => match sig::sp_method_descriptor(d) {
                    Option::None => Err(
                        PoolError::BadDescriptor { index: name_and_type_index as usize },
                    ),
                    Option::Some((params, return_ty)) => Ok(
                        Some(
                            SpecRcpEntry::MethodRef(
                                symref::SpecMethodRef {
                                    class: symref::SpecClassRef { sig: c },
                                    sig: sig::SpecMethod { name: n, params, return_ty },
                                },
                            ),
                        ),
                    ),
                },
            },
        },
        SpecConstantPoolInfo::String { string_index } => Ok(
            Some(SpecRcpEntry::UnresolvedString(string_index)),
        ),
        SpecConstantPoolInfo::Integer { bytes } => Ok(
            Some(SpecRcpEntry::ResolvedLiteral(SpecValue::Int(bytes as i32))),
        ),
        SpecConstantPoolInfo::Float { bytes } => Ok(
            Some(SpecRcpEntry::ResolvedLiteral(SpecValue::Float { bits: bytes })),
        ),
        SpecConstantPoolInfo::Long { high_bytes, low_bytes } => Ok(
            Some(
                SpecRcpEntry::ResolvedLiteral(
                    SpecValue::Long(
                        ((((high_bytes as u64) << 32) | (low_bytes as u64)) as u64) as i64,
                    ),
                ),
            ),
        ),
        SpecConstantPoolInfo::Double { high_bytes, low_bytes } => Ok(
            Some(
                SpecRcpEntry::ResolvedLiteral(
                    SpecValue::Double {
                        bits: (((high_bytes as u64) << 32) | (low_bytes as u64)) as u64,
                    },
                ),
            ),
        ),
        SpecConstantPoolInfo::Utf8 { bytes } => Ok(Some(SpecRcpEntry::StringValue(bytes))),
        _ => Ok(None),
    }
}

/// The whole runtime pool, slot by slot from `k` on; the first bad chain
/// stops the conversion.
pub open spec fn sp_build_rcp(pool: Seq<SpecConstantPoolInfo>, k: int) -> Result<
    Seq<Option<SpecRcpEntry>>,
    PoolError,
>
    decreases pool.len() - k,
{
    if k < 0 || k >= pool.len() {
        Ok(Seq::empty())
    } else {
        match sp_rcp_slot_of(pool, k) {
            Err(pe) => Err(pe),
            Ok(slot) => match sp_build_rcp(pool, k + 1) {
                Err(pe) => Err(pe),
                Ok(rest) => Ok(seq![slot] + rest),
            },
        }
    }
}

pub(crate) fn exec_utf8_string_at(pool: &Vec<ConstantPoolInfo>, idx: u16) -> (r: Result<String, PoolError>)
    ensures
        match r {
            Ok(s) => sp_utf8_chars_at(crate::model::view_cp_seq(pool@), idx as int) == Ok::<
                Seq<char>,
                PoolError,
            >(s@),
            Err(e) => sp_utf8_chars_at(crate::model::view_cp_seq(pool@), idx as int) == Err::<
                Seq<char>,
                PoolError,
            >(e),
        },
{
    match crate::model::cp_get(pool, idx) {
        Option::None => Err(PoolError::OutOfBounds { index: idx as usize }),
        Option::Some(e) => match e {
            ConstantPoolInfo::Utf8 { bytes } => match decode_string(bytes) {
                Ok(s) => Ok(s),
                Err(de) => Err(PoolError::BadString { index: idx as usize, cause: de }),
            },
            _ => {
                let actual = e.tag();
                Err(PoolError::WrongTag { index: idx as usize, expected: Tag::Utf8, actual })
            },
        },
    }
}

pub(crate) fn exec_class_sig_at(pool: &Vec<ConstantPoolInfo>, idx: u16) -> (r: Result<sig::Class, PoolError>)
    ensures
        match r {
            Ok(c) => sp_class_sig_at(crate::model::view_cp_seq(pool@), idx as int) == Ok::<
                sig::SpecClass,
                PoolError,
            >(sig::view_class(c)),
            Err(e) => sp_class_sig_at(crate::model::view_cp_seq(pool@), idx as int) == Err::<
                sig::SpecClass,
                PoolError,
            >(e),
        },
{
    match crate::model::cp_get(pool, idx) {
        Option::None => Err(PoolError::OutOfBounds { index: idx as usize }),
        Option::Some(e) => match e {
            ConstantPoolInfo::Class { name_index } => {
                let ni = *name_index;
                match exec_utf8_string_at(pool, ni) {
                    Err(pe) => Err(pe),
                    Ok(name) => match sig::Class::new(name.as_str()) {
                        Option::None => Err(PoolError::BadDescriptor { index: ni as usize }),
                        Option::Some(c) => Ok(c),
                    },
                }
            },
            _ => {
                let actual = e.tag();
                Err(PoolError::WrongTag { index: idx as usize, expected: Tag::Class, actual })
            },
        },
    }
}

pub(crate) fn exec_nat_at(pool: &Vec<ConstantPoolInfo>, idx: u16) -> (r: Result<(String, String), PoolError>)
    ensures
        match r {
            Ok((n, d)) => sp_nat_at(crate::model::view_cp_seq(pool@), idx as int) == Ok::<
                (Seq<char>, Seq<char>),
                PoolError,
            >((n@, d@)),
            Err(e) => sp_nat_at(crate::model::view_cp_seq(pool@), idx as int) == Err::<
                (Seq<char>, Seq<char>),
                PoolError,
            >(e),
        },
{
    match crate::model::cp_get(pool, idx) {
        Option::None => Err(PoolError::OutOfBounds { index: idx as usize }),
        Option::Some(e) => match e {
            ConstantPoolInfo::NameAndType { name_index, descriptor_index } => {
                let ni = *name_index;
                let di = *descriptor_index;
                match exec_utf8_string_at(pool, ni) {
                    Err(pe) => Err(pe),
                    Ok(n) => match exec_utf8_string_at(pool, di) {
                        Err(pe) => Err(pe),
                        Ok(d) => Ok((n, d)),
                    },
                }
            },
            _ => {
                let actual = e.tag();
                Err(PoolError::WrongTag { index: idx as usize, expected: Tag::NameAndType, actual })
            },
        },
    }
}

/// The decoded text of the raw string value at one-based `index` of a
/// runtime pool, or the exact error: the index must name a converted
/// `StringValue` slot whose bytes decode.
pub open spec fn sp_lookup_raw(rcp: Seq<Option<SpecRcpEntry>>, index: int) -> Result<
    Seq<char>,
    PoolError,
> {
    if 1 <= index && index <= rcp.len() {
        match rcp[index - 1] {
            Some(SpecRcpEntry::StringValue(bytes)) => match decode_chars_from(bytes, 0) {
                Ok(cs) => Ok(cs),
                Err(de) => Err(PoolError::BadString { index: index as usize, cause: de }),
            },
            _ => Err(PoolError::NotStringValue { index: index as usize }),
        }
    } else {
        Err(PoolError::NotStringValue { index: index as usize })
    }
}

/// A runtime constant pool: one slot per parsed pool slot, with the same
/// one-based indexing and the same placeholder rule.
#[derive(Debug)]
pub struct RuntimeConstantPool {
    entries: Vec<Option<RuntimeConstantPoolEntry>>,
}

impl View for RuntimeConstantPool {
    type V = Seq<Option<SpecRcpEntry>>;

    closed spec fn view(&self) -> Seq<Option<SpecRcpEntry>> {
        view_rcp_seq(self.entries@)
    }
}

impl RuntimeConstantPool {
    /// A pool with no slots, as an array class carries.
    pub fn empty() -> (r: Self)
        ensures
            r@ == Seq::<Option<SpecRcpEntry>>::empty(),
    {
        let r = RuntimeConstantPool { entries: Vec::new() };
        proof {
            assert(r@ =~= Seq::<Option<SpecRcpEntry>>::empty());
        }
        r
    }

    /// Converts a parsed constant pool into its runtime form. Every slot is
    /// exactly what `sp_build_rcp` says it is; the first ill-formed
    /// cross-reference chain yields its exact error.
    pub fn new(constant_pool: &Vec<ConstantPoolInfo>) -> (r: Result<Self, PoolError>)
        ensures
            match r {
                Ok(rcp) => sp_build_rcp(crate::model::view_cp_seq(constant_pool@), 0) == Ok::<
                    Seq<Option<SpecRcpEntry>>,
                    PoolError,
                >(rcp@),
                Err(e) => sp_build_rcp(crate::model::view_cp_seq(constant_pool@), 0) == Err::<
                    Seq<Option<SpecRcpEntry>>,
                    PoolError,
                >(e),
            },
    {
        let ghost poolv = crate::model::view_cp_seq(constant_pool@);
        let mut entries: Vec<Option<RuntimeConstantPoolEntry>> = Vec::new();
        let mut k: usize = 0;
        let n = constant_pool.len();
        while k < n
            invariant
                k <= n,
                n == constant_pool@.len(),
                poolv == crate::model::view_cp_seq(constant_pool@),
                entries@.len() == k,
                sp_build_rcp(poolv, 0) == (match sp_build_rcp(poolv, k as int) {
                    Ok(rest) => Ok::<Seq<Option<SpecRcpEntry>>, PoolError>(
                        view_rcp_seq(entries@) + rest,
                    ),
                    Err(e) => Err::<Seq<Option<SpecRcpEntry>>, PoolError>(e),
                }),
            decreases n - k,
        {
            let ghost entries0 = entries@;
            let slot: Option<RuntimeConstantPoolEntry> = match &constant_pool[k] {
                ConstantPoolInfo::Class { name_index } => {
                    match exec_utf8_string_at(constant_pool, *name_index) {
                        Err(pe) => {
                            return Err(pe);
                        },
                        Ok(name) => match sig::Class::new(name.as_str()) {
                            Option::None => {
                                return Err(
                                    PoolError::BadDescriptor { index: *name_index as usize },
                                );
                            },
                            Option::Some(c) => Some(
                                RuntimeConstantPoolEntry::ClassRef(symref::Class { sig: c }),
                            ),
                        },
                    }
                },
                ConstantPoolInfo::FieldRef { class_index, name_and_type_index } => {
                    match exec_class_sig_at(constant_pool, *class_index) {
                        Err(pe) => {
                            return Err(pe);
                        },
                        Ok(c) => match exec_nat_at(constant_pool, *name_and_type_index) {
                            Err(pe) => {
                                return Err(pe);
                            },
                            Ok((fname, d)) => match sig::Type::new(d.as_str()) {
                                Option::None => {
                                    return Err(
                                        PoolError::BadDescriptor {
                                            index: *name_and_type_index as usize,
                                        },
                                    );
                                },
                                Option::Some(ty) => Some(
                                    RuntimeConstantPoolEntry::FieldRef(
                                        symref::Field {
                                            class: symref::Class { sig: c },
                                            sig: sig::Field { name: fname, ty },
                                        },
                                    ),
                                ),
                            },
                        },
                    }
                },
                ConstantPoolInfo::MethodRef { class_index, name_and_type_index } => {
                    match exec_class_sig_at(constant_pool, *class_index) {
                        Err(pe) => {
                            return Err(pe);
                        },
                        Ok(c) => match exec_nat_at(constant_pool, *name_and_type_index) {
                            Err(pe) => {
                                return Err(pe);
                            },
                            Ok((mname, d)) => match sig::Method::new(mname.as_str(), d.as_str()) {
                                Option::None => {
                                    return Err(
                                        PoolError::BadDescriptor {
                                            index: *name_and_type_index as usize,
                                        },
                                    );
                                },
                                Option::Some(m) => Some(
                                    RuntimeConstantPoolEntry::MethodRef(
                                        symref::Method { class: symref::Class { sig: c }, sig: m },
                                    ),
                                ),
                            },
                        },
                    }
                },
                ConstantPoolInfo::String { string_index } => Some(
                    RuntimeConstantPoolEntry::UnresolvedString(*string_index),
                ),
                ConstantPoolInfo::Integer { bytes } => Some(
                    RuntimeConstantPoolEntry::ResolvedLiteral(Value::Int(*bytes as i32)),
                ),
                ConstantPoolInfo::Float { bytes } => Some(
                    RuntimeConstantPoolEntry::ResolvedLiteral(Value::Float { bits: *bytes }),
                ),
                ConstantPoolInfo::Long { high_bytes, low_bytes } => Some(
                    RuntimeConstantPoolEntry::ResolvedLiteral(
                        Value::Long(
                            ((((*high_bytes as u64) << 32) | (*low_bytes as u64)) as u64) as i64,
                        ),
                    ),
                ),
                ConstantPoolInfo::Double { high_bytes, low_bytes } => Some(
                    RuntimeConstantPoolEntry::ResolvedLiteral(
                        Value::Double { bits: (((*high_bytes as u64) << 32) | (*low_bytes as u64)) },
                    ),
                ),
                ConstantPoolInfo::Utf8 { bytes } => {
                    let mut copied: Vec<u8> = Vec::new();
                    let mut j: usize = 0;
                    while j < bytes.len()
                        invariant
                            j <= bytes@.len(),
                            copied@ =~= bytes@.subrange(0, j as int),
                        decreases bytes@.len() - j,
                    {
                        copied.push(bytes[j]);
                        j = j + 1;
                    }
                    proof {
                        assert(copied@ =~= bytes@);
                    }
                    Some(
                        RuntimeConstantPoolEntry::StringValue(ModifiedUtf8String::new(copied)),
                    )
                },
                _ => None,
            };
            entries.push(slot);
            k = k + 1;
            proof {
                assert(entries@.drop_last() =~= entries0);
                match sp_build_rcp(poolv, k as int) {
                    Ok(rest) => crate::mutf8::lemma_push_prepend(
                        view_rcp_seq(entries0),
                        view_rcp_slot(entries@.last()),
                        rest,
                    ),
                    Err(_) => {},
                }
            }
        }
        proof {
            assert(view_rcp_seq(entries@) + Seq::<Option<SpecRcpEntry>>::empty() =~= view_rcp_seq(
                entries@,
            ));
        }
        Ok(RuntimeConstantPool { entries })
    }

    /// The number of slots.
    pub fn len(&self) -> (r: usize)
        ensures
            r == self@.len(),
    {
        proof {
            lemma_view_rcp_seq_len(self.entries@);
        }
        self.entries.len()
    }

    /// The entry at one-based `index`, or `None` when the index is zero,
    /// past the end, or an unconverted slot.
    pub fn get(&self, index: u16) -> (r: Option<&RuntimeConstantPoolEntry>)
        ensures
            match r {
                Some(e) => 1 <= index && index <= self@.len() && self@[index - 1] == Some(
                    view_rcp_entry(*e),
                ),
                None => index == 0 || index > self@.len() || self@[index - 1] is None,
            },
    {
        proof {
            lemma_view_rcp_seq_len(self.entries@);
        }
        if index >= 1 && (index as usize) <= self.entries.len() {
            proof {
                lemma_view_rcp_seq_index(self.entries@, index - 1);
            }
            match &self.entries[(index - 1) as usize] {
                Option::None => None,
                Option::Some(e) => Some(e),
            }
        } else {
            None
        }
    }

    /// The decoded text of the raw string value at one-based `index`. Field
    /// and method structures after the pool refer to their names this way.
    pub fn lookup_raw_string(&self, index: u16) -> (r: Result<String, PoolError>)
        ensures
            match r {
                Ok(s) => sp_lookup_raw(self@, index as int) == Ok::<Seq<char>, PoolError>(s@),
                Err(e) => sp_lookup_raw(self@, index as int) == Err::<Seq<char>, PoolError>(e),
            },
    {
        proof {
            lemma_view_rcp_seq_len(self.entries@);
        }
        if index >= 1 && (index as usize) <= self.entries.len() {
            proof {
                lemma_view_rcp_seq_index(self.entries@, index - 1);
            }
            match &self.entries[(index - 1) as usize] {
                Option::Some(RuntimeConstantPoolEntry::StringValue(s)) => match s.to_string() {
                    Ok(text) => Ok(text),
                    Err(de) => Err(PoolError::BadString { index: index as usize, cause: de }),
                },
                _ => Err(PoolError::NotStringValue { index: index as usize }),
            }
        } else {
            Err(PoolError::NotStringValue { index: index as usize })
        }
    }
}

pub proof fn lemma_view_rcp_seq_len(s: Seq<Option<RuntimeConstantPoolEntry>>)
    ensures
        view_rcp_seq(s).len() == s.len(),
    decreases s,
{
    if s.len() > 0 {
        lemma_view_rcp_seq_len(s.drop_last());
    }
}

/// `view_rcp_seq` maps `view_rcp_slot` over the slots element by element.
pub proof fn lemma_view_rcp_seq_index(s: Seq<Option<RuntimeConstantPoolEntry>>, i: int)
    requires
        0 <= i < s.len(),
    ensures
        view_rcp_seq(s).len() == s.len(),
        view_rcp_seq(s)[i] == view_rcp_slot(s[i]),
    decreases s,
{
    lemma_view_rcp_seq_len(s);
    if i < s.len() - 1 {
        lemma_view_rcp_seq_index(s.drop_last(), i);
    }
}

} // verus!
