//! The class-resolution engine: loads classes on demand from a byte-source
//! table, links them against their already-resolved superclasses, detects
//! circular resolution through an explicit pending set, and caches every
//! resolved class exactly once.

use crate::attributes::{
    lemma_view_attr_seq_index, view_attr, view_attr_seq, AttributeInfo, ExceptionTableEntry,
    SpecAttributeInfo,
};
use crate::model::{ClassFile, MethodInfo, SpecMethodInfo, ACC_INTERFACE, ACC_STATIC};
use crate::runtime::{
    sp_lookup_raw, view_value, PoolError, RuntimeConstantPool, RuntimeConstantPoolEntry,
    SpecRcpEntry, SpecValue, Value,
};
use crate::sig;
use crate::symref;
use vstd::prelude::*;

verus! {

/// Why resolution of a class failed. A failure is reported, never cached:
/// a later retry of the same handle may succeed or fail independently.
#[derive(Debug)]
pub enum Error {
    /// No purported representation of the class was found.
    ClassNotFound,
    /// The purported representation does not follow the class-file format.
    ClassFormat(crate::parser::Error),
    /// The purported representation is of an unsupported version.
    UnsupportedVersion { major: u16, minor: u16 },
    /// The purported representation does not represent the requested class.
    NoClassDefFound,
    /// A constant-pool chain inside an otherwise well-formed file is broken.
    RuntimePool(PoolError),
    /// A declared superclass is actually an interface, or a declared
    /// superinterface is actually a class.
    IncompatibleClassChange(String),
    /// The class is its own superclass or superinterface, directly or
    /// transitively.
    ClassCircularity,
}

/// The code and exception table of the first `Code` attribute, if any.
pub open spec fn sp_first_code(attrs: Seq<SpecAttributeInfo>) -> Option<
    (Seq<u8>, Seq<ExceptionTableEntry>),
>
    decreases attrs.len(),
{
    if attrs.len() == 0 {
        None
    } else {
        match attrs[0] {
            SpecAttributeInfo::Code { code, exception_table, .. } => Some((code, exception_table)),
            _ => sp_first_code(attrs.drop_first()),
        }
    }
}

/// A resolved method: its symbolic reference, its bytecode and its
/// exception table.
#[derive(Debug)]
pub struct Method {
    /// The method's signature, comprised of its name and argument and
    /// return types.
    pub symref: symref::Method,
    /// The method's bytecode instructions.
    pub code: Vec<u8>,
    /// The method's exception table; order is significant.
    pub exception_table: Vec<ExceptionTableEntry>,
}

pub struct SpecMethodData {
    pub symref: symref::SpecMethodRef,
    pub code: Seq<u8>,
    pub exception_table: Seq<ExceptionTableEntry>,
}

pub open spec fn view_method_data(m: Method) -> SpecMethodData {
    SpecMethodData {
        symref: symref::view_method_ref(m.symref),
        code: m.code@,
        exception_table: m.exception_table@,
    }
}

impl Method {
    /// Extracts the bytecode of a parsed method: the first `Code` attribute
    /// gives its code and exception table. A method without one (an
    /// abstract or native method) yields `None`.
    pub fn new(symref: symref::Method, method_info: MethodInfo) -> (r: Option<Method>)
        ensures
            match r {
                Some(m) => sp_first_code(crate::model::view_method_info(method_info).attributes)
                    == Some((m.code@, m.exception_table@)) && view_method_data(m).symref
                    == symref::view_method_ref(symref),
                None => sp_first_code(
                    crate::model::view_method_info(method_info).attributes,
                ) is None,
            },
    {
        let mut attrs = method_info.attributes;
        loop
            invariant
                sp_first_code(crate::model::view_method_info(method_info).attributes)
                    == sp_first_code(view_attr_seq(attrs@)),
            decreases attrs@.len(),
        {
            if attrs.len() == 0 {
                proof {
                    assert(view_attr_seq(attrs@) =~= Seq::<SpecAttributeInfo>::empty());
                }
                return None;
            }
            let ghost attrs0 = attrs@;
            let a = attrs.remove(0);
            proof {
                lemma_view_attr_seq_index(attrs0, 0);
                assert(view_attr_seq(attrs0)[0] == view_attr(a));
                lemma_view_attr_seq_drop_first(attrs0);
                assert(attrs@ =~= attrs0.drop_first());
            }
            match a {
                AttributeInfo::Code { code, exception_table, .. } => {
                    return Some(Method { symref, code, exception_table });
                },
                _ => {},
            }
        }
    }
}

/// Dropping the first element commutes with viewing an attribute sequence.
proof fn lemma_view_attr_seq_drop_first(s: Seq<AttributeInfo>)
    requires
        s.len() > 0,
    ensures
        view_attr_seq(s.drop_first()) =~= view_attr_seq(s).drop_first(),
{
    lemma_view_attr_seq_index(s, 0);
    assert forall|i: int| 0 <= i < s.len() - 1 implies view_attr_seq(s.drop_first())[i]
        == view_attr_seq(s).drop_first()[i] by {
        lemma_view_attr_seq_index(s.drop_first(), i);
        lemma_view_attr_seq_index(s, i + 1);
        assert(s.drop_first()[i] == s[i + 1]);
    }
    lemma_view_attr_seq_index(s, 0);
    crate::attributes::lemma_view_attr_seq_len(s.drop_first());
}

/// The default value a static field of the given type starts with.
pub open spec fn sp_default_value(ty: sig::SpecType) -> SpecValue {
    match ty {
        sig::SpecType::Long => SpecValue::Long(0),
        sig::SpecType::Float => SpecValue::Float { bits: 0 },
        sig::SpecType::Double => SpecValue::Double { bits: 0 },
        sig::SpecType::Reference(_) => SpecValue::Null,
        _ => SpecValue::Int(0),
    }
}

fn default_value(ty: &sig::Type) -> (r: Value)
    ensures
        view_value(r) == sp_default_value(sig::view_type(*ty)),
{
    match ty {
        sig::Type::Long => Value::Long(0),
        sig::Type::Float => Value::Float { bits: 0 },
        sig::Type::Double => Value::Double { bits: 0 },
        sig::Type::Reference(_) => Value::Null,
        _ => Value::Int(0),
    }
}

/// What the field tables of a class become: each parsed field's name and
/// descriptor are read through the runtime pool; a static field joins the
/// class-field table with its default value, any other field joins the
/// instance-field set.
pub open spec fn sp_build_fields(
    rcp: Seq<Option<SpecRcpEntry>>,
    fields: Seq<crate::model::SpecFieldInfo>,
    k: int,
) -> Result<(Seq<(sig::SpecField, SpecValue)>, Seq<sig::SpecField>), PoolError>
    decreases fields.len() - k,
{
    if k < 0 || k >= fields.len() {
        Ok((Seq::empty(), Seq::empty()))
    } else {
        let f = fields[k];
        match sp_lookup_raw(rcp, f.name_index as int) {
            Err(pe) => Err(pe),
            Ok(name) => match sp_lookup_raw(rcp, f.descriptor_index as int) {
                Err(pe) => Err(pe),
                Ok(d) => match sig::sp_field_descriptor(d) {
                    Option::None => Err(
                        PoolError::BadDescriptor { index: f.descriptor_index as usize },
                    ),
                    Option::Some(ty) => match sp_build_fields(rcp, fields, k + 1) {
                        Err(pe) => Err(pe),
                        Ok((statics, instances)) => {
                            let handle = sig::SpecField { name, ty };
                            if f.access_flags & ACC_STATIC != 0 {
                                Ok((seq![(handle, sp_default_value(ty))] + statics, instances))
                            } else {
                                Ok((statics, seq![handle] + instances))
                            }
                        },
                    },
                },
            },
        }
    }
}

/// What the method table of a class becomes: each parsed method's name and
/// descriptor are read through the runtime pool and parsed into a
/// signature; a method with a `Code` attribute joins the table, and a
/// method without one (abstract or native) is left out.
pub open spec fn sp_build_methods(
    rcp: Seq<Option<SpecRcpEntry>>,
    class_ref: symref::SpecClassRef,
    methods: Seq<SpecMethodInfo>,
    k: int,
) -> Result<Seq<(sig::SpecMethod, SpecMethodData)>, PoolError>
    decreases methods.len() - k,
{
    if k < 0 || k >= methods.len() {
        Ok(Seq::empty())
    } else {
        let m = methods[k];
        match sp_lookup_raw(rcp, m.name_index as int) {
            Err(pe) => Err(pe),
            Ok(name) => match sp_lookup_raw(rcp, m.descriptor_index as int) {
                Err(pe) => Err(pe),
                Ok(d) => match sig::sp_method_descriptor(d) {
                    Option::None => Err(
                        PoolError::BadDescriptor { index: m.descriptor_index as usize },
                    ),
                    Option::Some((params, return_ty)) => match sp_build_methods(
                        rcp,
                        class_ref,
                        methods,
                        k + 1,
                    ) {
                        Err(pe) => Err(pe),
                        Ok(rest) => {
                            let handle = sig::SpecMethod { name, params, return_ty };
                            match sp_first_code(m.attributes) {
                                Option::None => Ok(rest),
                                Option::Some((code, et)) => Ok(
                                    seq![
                                        (
                                            handle,
                                            SpecMethodData {
                                                symref: symref::SpecMethodRef {
                                                    class: class_ref,
                                                    sig: handle,
                                                },
                                                code,
                                                exception_table: et,
                                            },
                                        ),
                                    ] + rest,
                                ),
                            }
                        },
                    },
                },
            },
        }
    }
}

/// A resolved runtime class.
#[derive(Debug)]
pub struct Class {
    /// The symbolic self-reference of the class.
    pub symref: symref::Class,
    /// The position of the resolved superclass in the loader's table;
    /// `None` for the root class.
    pub superclass: Option<usize>,
    /// The access flags the class file declared.
    pub access_flags: u16,
    /// The runtime constant pool built from the parsed pool.
    pub constant_pool: RuntimeConstantPool,
    /// The static fields of the class, each with its current value.
    pub class_fields: Vec<(sig::Field, Value)>,
    /// The non-static fields an instance of this class carries.
    pub instance_fields: Vec<sig::Field>,
    /// The methods of the class that carry bytecode, keyed by signature.
    pub methods: Vec<(sig::Method, Method)>,
}

pub struct SpecClassData {
    pub symref: symref::SpecClassRef,
    pub superclass: Option<usize>,
    pub access_flags: u16,
    pub constant_pool: Seq<Option<SpecRcpEntry>>,
    pub class_fields: Seq<(sig::SpecField, SpecValue)>,
    pub instance_fields: Seq<sig::SpecField>,
    pub methods: Seq<(sig::SpecMethod, SpecMethodData)>,
}

pub open spec fn view_static_fields(s: Seq<(sig::Field, Value)>) -> Seq<(sig::SpecField, SpecValue)> {
    Seq::new(s.len(), |i: int| (sig::view_field(s[i].0), view_value(s[i].1)))
}

pub open spec fn view_instance_fields(s: Seq<sig::Field>) -> Seq<sig::SpecField> {
    Seq::new(s.len(), |i: int| sig::view_field(s[i]))
}

pub open spec fn view_methods(s: Seq<(sig::Method, Method)>) -> Seq<(sig::SpecMethod, SpecMethodData)> {
    Seq::new(s.len(), |i: int| (sig::view_method(s[i].0), view_method_data(s[i].1)))
}

pub open spec fn view_class_data(c: Class) -> SpecClassData {
    SpecClassData {
        symref: symref::view_class_ref(c.symref),
        superclass: c.superclass,
        access_flags: c.access_flags,
        constant_pool: c.constant_pool@,
        class_fields: view_static_fields(c.class_fields@),
        instance_fields: view_instance_fields(c.instance_fields@),
        methods: view_methods(c.methods@),
    }
}

impl Class {
    /// Builds a runtime class from a parsed class file and its already-built
    /// runtime constant pool: static fields take their default values,
    /// instance fields are collected as descriptors, and every method with
    /// bytecode joins the method table.
    #[verifier::loop_isolation(false)]
    pub fn new(
        symref: symref::Class,
        superclass: Option<usize>,
        constant_pool: RuntimeConstantPool,
        class_file: ClassFile,
    ) -> (r: Result<Class, PoolError>)
        ensures
            match r {
                Ok(c) => {
                    let fr = sp_build_fields(
                        constant_pool@,
                        crate::model::view_field_seq(class_file.fields@),
                        0,
                    );
                    let mr = sp_build_methods(
                        constant_pool@,
                        symref::view_class_ref(symref),
                        crate::model::view_method_seq(class_file.methods@),
                        0,
                    );
                    &&& fr is Ok
                    &&& mr is Ok
                    &&& view_class_data(c) == SpecClassData {
                        symref: symref::view_class_ref(symref),
                        superclass,
                        access_flags: class_file.access_flags,
                        constant_pool: constant_pool@,
                        class_fields: fr->Ok_0.0,
                        instance_fields: fr->Ok_0.1,
                        methods: mr->Ok_0,
                    }
                },
                Err(pe) => {
                    let fr = sp_build_fields(
                        constant_pool@,
                        crate::model::view_field_seq(class_file.fields@),
                        0,
                    );
                    match fr {
                        Err(fe) => fe == pe,
                        Ok(_) => sp_build_methods(
                            constant_pool@,
                            symref::view_class_ref(symref),
                            crate::model::view_method_seq(class_file.methods@),
                            0,
                        ) == Err::<Seq<(sig::SpecMethod, SpecMethodData)>, PoolError>(pe),
                    }
                },
            },
    {
        let ghost rcpv = constant_pool@;
        let ghost fieldsv = crate::model::view_field_seq(class_file.fields@);
        let ghost methodsv = crate::model::view_method_seq(class_file.methods@);
        let ghost class_refv = symref::view_class_ref(symref);
        let mut class_fields: Vec<(sig::Field, Value)> = Vec::new();
        let mut instance_fields: Vec<sig::Field> = Vec::new();
        let nf = class_file.fields.len();
        let mut k: usize = 0;
        while k < nf
            invariant
                k <= nf,
                nf == class_file.fields@.len(),
                fieldsv == crate::model::view_field_seq(class_file.fields@),
                rcpv == constant_pool@,
                sp_build_fields(rcpv, fieldsv, 0) == (match sp_build_fields(rcpv, fieldsv, k as int) {
                    Ok((st, inst)) => Ok::<
                        (Seq<(sig::SpecField, SpecValue)>, Seq<sig::SpecField>),
                        PoolError,
                    >(
                        (
                            view_static_fields(class_fields@) + st,
                            view_instance_fields(instance_fields@) + inst,
                        ),
                    ),
                    Err(pe) => Err::<
                        (Seq<(sig::SpecField, SpecValue)>, Seq<sig::SpecField>),
                        PoolError,
                    >(pe),
                }),
            decreases nf - k,
        {
            let ghost cf0 = class_fields@;
            let ghost if0 = instance_fields@;
            let f = &class_file.fields[k];
            let name = match constant_pool.lookup_raw_string(f.name_index) {
                Ok(s) => s,
                Err(pe) => {
                    return Err(pe);
                },
            };
            let d = match constant_pool.lookup_raw_string(f.descriptor_index) {
                Ok(s) => s,
                Err(pe) => {
                    return Err(pe);
                },
            };
            let ty = match sig::Type::new(d.as_str()) {
                Option::Some(t) => t,
                Option::None => {
                    return Err(PoolError::BadDescriptor { index: f.descriptor_index as usize });
                },
            };
            let is_static = f.access_flags & ACC_STATIC != 0;
            if is_static {
                let dv = default_value(&ty);
                class_fields.push((sig::Field { name, ty }, dv));
            } else {
                instance_fields.push(sig::Field { name, ty });
            }
            k = k + 1;
            proof {
                match sp_build_fields(rcpv, fieldsv, k as int) {
                    Ok((st, inst)) => {
                        if is_static {
                            assert(view_static_fields(class_fields@) =~= view_static_fields(
                                cf0,
                            ).push(
                                (
                                    sig::view_field(class_fields@.last().0),
                                    view_value(class_fields@.last().1),
                                ),
                            ));
                            assert(view_instance_fields(instance_fields@) =~= view_instance_fields(
                                if0,
                            ));
                            crate::mutf8::lemma_push_prepend(
                                view_static_fields(cf0),
                                (
                                    sig::view_field(class_fields@.last().0),
                                    view_value(class_fields@.last().1),
                                ),
                                st,
                            );
                        } else {
                            assert(view_instance_fields(instance_fields@) =~= view_instance_fields(
                                if0,
                            ).push(sig::view_field(instance_fields@.last())));
                            assert(view_static_fields(class_fields@) =~= view_static_fields(cf0));
                            crate::mutf8::lemma_push_prepend(
                                view_instance_fields(if0),
                                sig::view_field(instance_fields@.last()),
                                inst,
                            );
                        }
                    },
                    Err(_) => {},
                }
            }
        }
        proof {
            assert(view_static_fields(class_fields@) + Seq::<(sig::SpecField, SpecValue)>::empty()
                =~= view_static_fields(class_fields@));
            assert(view_instance_fields(instance_fields@) + Seq::<sig::SpecField>::empty()
                =~= view_instance_fields(instance_fields@));
        }
        let mut methods: Vec<(sig::Method, Method)> = Vec::new();
        let mut infos = class_file.methods;
        let ghost nm = methodsv.len();
        let infos_count = infos.len();
        proof {
            assert(methodsv.subrange(0, nm as int) =~= methodsv);
            assert(nm == infos_count);
        }
        let mut j: usize = 0;
        loop
            invariant
                j <= nm,
                nm == methodsv.len(),
                nm <= usize::MAX,
                j + infos@.len() == nm,
                rcpv == constant_pool@,
                class_refv == symref::view_class_ref(symref),
                sp_build_fields(rcpv, fieldsv, 0) == Ok::<
                    (Seq<(sig::SpecField, SpecValue)>, Seq<sig::SpecField>),
                    PoolError,
                >((view_static_fields(class_fields@), view_instance_fields(instance_fields@))),
                crate::model::view_method_seq(infos@) =~= methodsv.subrange(j as int, nm as int),
                sp_build_methods(rcpv, class_refv, methodsv, 0) == (match sp_build_methods(
                    rcpv,
                    class_refv,
                    methodsv,
                    j as int,
                ) {
                    Ok(rest) => Ok::<Seq<(sig::SpecMethod, SpecMethodData)>, PoolError>(
                        view_methods(methods@) + rest,
                    ),
                    Err(pe) => Err::<Seq<(sig::SpecMethod, SpecMethodData)>, PoolError>(pe),
                }),
            decreases nm - j,
        {
            if infos.len() == 0 {
                proof {
                    assert(j == nm);
                }
                break ;
            }
            let ghost m0 = methods@;
            let ghost infos0 = infos@;
            let info = infos.remove(0);
            proof {
                assert(crate::model::view_method_seq(infos0)[0] == crate::model::view_method_info(
                    info,
                ));
                assert(methodsv.subrange(j as int, nm as int)[0] == methodsv[j as int]);
                assert(crate::model::view_method_info(info) == methodsv[j as int]);
                assert(infos@ =~= infos0.drop_first());
                assert forall|i: int| 0 <= i < infos@.len() implies crate::model::view_method_seq(
                    infos@,
                )[i] == methodsv.subrange(j + 1, nm as int)[i] by {
                    assert(infos@[i] == infos0[i + 1]);
                    assert(crate::model::view_method_seq(infos0)[i + 1]
                        == crate::model::view_method_info(infos0[i + 1]));
                    assert(methodsv.subrange(j as int, nm as int)[i + 1] == methodsv[j + 1 + i]);
                }
                assert(crate::model::view_method_seq(infos@) =~= methodsv.subrange(
                    j + 1,
                    nm as int,
                ));
            }
            let name = match constant_pool.lookup_raw_string(info.name_index) {
                Ok(s) => s,
                Err(pe) => {
                    return Err(pe);
                },
            };
            let d = match constant_pool.lookup_raw_string(info.descriptor_index) {
                Ok(s) => s,
                Err(pe) => {
                    return Err(pe);
                },
            };
            let handle = match sig::Method::new(name.as_str(), d.as_str()) {
                Option::Some(m) => m,
                Option::None => {
                    return Err(PoolError::BadDescriptor { index: info.descriptor_index as usize });
                },
            };
            let handle2 = match sig::Method::new(name.as_str(), d.as_str()) {
                Option::Some(m) => m,
                Option::None => {
                    return Err(PoolError::BadDescriptor { index: info.descriptor_index as usize });
                },
            };
            let msymref = symref::Method {
                class: symref::Class { sig: sig::clone_class(&symref.sig) },
                sig: handle2,
            };
            proof {
                assert(symref::view_method_ref(msymref).class == class_refv);
            }
            match Method::new(msymref, info) {
                Option::Some(meth) => {
                    methods.push((handle, meth));
                    j = j + 1;
                    proof {
                        assert(view_methods(methods@) =~= view_methods(m0).push(
                            (
                                sig::view_method(methods@.last().0),
                                view_method_data(methods@.last().1),
                            ),
                        ));
                        match sp_build_methods(rcpv, class_refv, methodsv, j as int) {
                            Ok(rest) => {
                                crate::mutf8::lemma_push_prepend(
                                    view_methods(m0),
                                    (
                                        sig::view_method(methods@.last().0),
                                        view_method_data(methods@.last().1),
                                    ),
                                    rest,
                                );
                            },
                            Err(_) => {},
                        }
                    }
                },
                Option::None => {
                    j = j + 1;
                },
            }
        }
        proof {
            assert(view_methods(methods@) + Seq::<(sig::SpecMethod, SpecMethodData)>::empty()
                =~= view_methods(methods@));
        }
        Ok(
            Class {
                symref,
                superclass,
                access_flags: class_file.access_flags,
                constant_pool,
                class_fields,
                instance_fields,
                methods,
            },
        )
    }

    /// Builds an array class for the given component type: no backing byte
    /// source, an empty constant pool, the universal root class as its
    /// superclass, and a single `length` instance field.
    pub fn new_array(object_class: usize, component_type: sig::Type) -> (r: Class)
        ensures
            view_class_data(r) == (SpecClassData {
                symref: symref::SpecClassRef {
                    sig: sig::SpecClass::Array(Box::new(sig::view_type(component_type))),
                },
                superclass: Some(object_class),
                access_flags: 0,
                constant_pool: Seq::empty(),
                class_fields: Seq::empty(),
                instance_fields: seq![
                    sig::SpecField { name: "length"@, ty: sig::SpecType::Int },
                ],
                methods: Seq::empty(),
            }),
    {
        let length_field = sig::Field { name: "length".to_owned(), ty: sig::Type::Int };
        let mut instance_fields: Vec<sig::Field> = Vec::new();
        instance_fields.push(length_field);
        let r = Class {
            symref: symref::Class { sig: sig::Class::Array(Box::new(component_type)) },
            superclass: Some(object_class),
            access_flags: 0,
            constant_pool: RuntimeConstantPool::empty(),
            class_fields: Vec::new(),
            instance_fields,
            methods: Vec::new(),
        };
        proof {
            assert(view_static_fields(r.class_fields@) =~= Seq::<
                (sig::SpecField, SpecValue),
            >::empty());
            assert(view_instance_fields(r.instance_fields@) =~= seq![
                sig::SpecField { name: "length"@, ty: sig::SpecType::Int },
            ]);
            assert(view_methods(r.methods@) =~= Seq::<(sig::SpecMethod, SpecMethodData)>::empty());
        }
        r
    }

    /// The method of this class with the given signature, if any: the
    /// first table entry whose signature view matches.
    pub fn find_method(&self, handle: &sig::Method) -> (r: Option<&Method>)
        ensures
            match r {
                Some(m) => exists|i: int|
                    0 <= i < view_class_data(*self).methods.len() && view_class_data(
                        *self,
                    ).methods[i] == (sig::view_method(*handle), view_method_data(*m)),
                None => forall|i: int|
                    0 <= i < view_class_data(*self).methods.len() ==> (#[trigger] view_class_data(
                        *self,
                    ).methods[i]).0 != sig::view_method(*handle),
            },
    {
        let n = self.methods.len();
        let mut k: usize = 0;
        while k < n
            invariant
                k <= n,
                n == self.methods@.len(),
                forall|i: int|
                    0 <= i < k ==> (#[trigger] view_methods(self.methods@)[i]).0
                        != sig::view_method(*handle),
            decreases n - k,
        {
            if method_sig_eq(&self.methods[k].0, handle) {
                proof {
                    let i = k as int;
                    assert(view_class_data(*self).methods[i] == (
                        sig::view_method(*handle),
                        view_method_data(self.methods@[i].1),
                    ));
                }
                return Some(&self.methods[k].1);
            }
            k = k + 1;
        }
        None
    }
}

/// Structural equality of two method signatures, decided at the level of
/// their mathematical views.
pub fn method_sig_eq(a: &sig::Method, b: &sig::Method) -> (r: bool)
    ensures
        r == (sig::view_method(*a) == sig::view_method(*b)),
{
    if !String::eq(&a.name, &b.name) {
        return false;
    }
    match (&a.return_ty, &b.return_ty) {
        (Option::None, Option::None) => {},
        (Option::Some(x), Option::Some(y)) => {
            if !sig::type_eq(x, y) {
                return false;
            }
        },
        _ => {
            return false;
        },
    }
    if a.params.len() != b.params.len() {
        proof {
            lemma_view_type_seq_len(a.params@);
            lemma_view_type_seq_len(b.params@);
        }
        return false;
    }
    let n = a.params.len();
    let mut k: usize = 0;
    while k < n
        invariant
            k <= n,
            n == a.params@.len() == b.params@.len(),
            forall|i: int|
                0 <= i < k ==> sig::view_type_seq(a.params@)[i] == sig::view_type_seq(b.params@)[i],
        decreases n - k,
    {
        proof {
            lemma_view_type_seq_index(a.params@, k as int);
            lemma_view_type_seq_index(b.params@, k as int);
        }
        if !sig::type_eq(&a.params[k], &b.params[k]) {
            proof {
                lemma_view_type_seq_len(a.params@);
                lemma_view_type_seq_len(b.params@);
            }
            return false;
        }
        k = k + 1;
    }
    proof {
        lemma_view_type_seq_len(a.params@);
        lemma_view_type_seq_len(b.params@);
        assert(sig::view_type_seq(a.params@) =~= sig::view_type_seq(b.params@));
    }
    true
}

pub proof fn lemma_view_type_seq_len(s: Seq<sig::Type>)
    ensures
        sig::view_type_seq(s).len() == s.len(),
    decreases s,
{
    if s.len() > 0 {
        lemma_view_type_seq_len(s.drop_last());
    }
}

pub proof fn lemma_view_type_seq_index(s: Seq<sig::Type>, i: int)
    requires
        0 <= i < s.len(),
    ensures
        sig::view_type_seq(s).len() == s.len(),
        sig::view_type_seq(s)[i] == sig::view_type(s[i]),
    decreases s,
{
    lemma_view_type_seq_len(s);
    if i < s.len() - 1 {
        lemma_view_type_seq_index(s.drop_last(), i);
    }
}

/// Whether any pending handle has the given view.
pub open spec fn sp_pending_has(p: Seq<sig::Class>, h: sig::SpecClass) -> bool {
    exists|k: int| 0 <= k < p.len() && sig::view_class(p[k]) == h
}

/// The scalar names among the pending handles.
pub open spec fn pending_names(p: Seq<sig::Class>) -> Set<Seq<char>> {
    Set::new(|n: Seq<char>| exists|k: int| 0 <= k < p.len() && sig::view_class(p[k]) == sig::SpecClass::Scalar(n))
}

/// The scalar names the byte source can serve.
pub open spec fn source_names(s: Seq<(String, Vec<u8>)>) -> Set<Seq<char>> {
    Set::new(|n: Seq<char>| exists|k: int| 0 <= k < s.len() && s[k].0@ == n)
}

/// The byte-source table holds finitely many names.
pub proof fn lemma_source_names_finite(s: Seq<(String, Vec<u8>)>)
    ensures
        source_names(s).finite(),
    decreases s.len(),
{
    if s.len() == 0 {
        assert(source_names(s) =~= Set::<Seq<char>>::empty());
    } else {
        lemma_source_names_finite(s.drop_last());
        assert forall|n: Seq<char>| source_names(s).contains(n) implies source_names(
            s.drop_last(),
        ).insert(s.last().0@).contains(n) by {
            let k = choose|k: int| 0 <= k < s.len() && s[k].0@ == n;
            if k < s.len() - 1 {
                assert(s.drop_last()[k] == s[k]);
            }
        }
        assert forall|n: Seq<char>| source_names(s.drop_last()).insert(s.last().0@).contains(
            n,
        ) implies source_names(s).contains(n) by {
            if n == s.last().0@ {
                assert(s[s.len() - 1].0@ == n);
            } else {
                let k = choose|k: int| 0 <= k < s.len() - 1 && s.drop_last()[k].0@ == n;
                assert(s[k].0@ == n);
            }
        }
        assert(source_names(s) =~= source_names(s.drop_last()).insert(s.last().0@));
    }
}

/// The bytes the source serves for a scalar name: the first row that
/// carries the name.
pub open spec fn sp_source_lookup(s: Seq<(String, Vec<u8>)>, n: Seq<char>) -> Option<Seq<u8>>
    decreases s.len(),
{
    if s.len() == 0 {
        None
    } else if s[0].0@ == n {
        Some(s[0].1@)
    } else {
        sp_source_lookup(s.drop_first(), n)
    }
}

fn source_lookup<'a>(source: &'a Vec<(String, Vec<u8>)>, name: &String) -> (r: Option<&'a Vec<u8>>)
    ensures
        match r {
            Some(b) => sp_source_lookup(source@, name@) == Some(b@) && source_names(
                source@,
            ).contains(name@),
            None => sp_source_lookup(source@, name@) is None && !source_names(source@).contains(
                name@,
            ),
        },
{
    let n = source.len();
    proof {
        assert(source@.subrange(0, n as int) =~= source@);
    }
    let mut k: usize = 0;
    while k < n
        invariant
            k <= n,
            n == source@.len(),
            sp_source_lookup(source@, name@) == sp_source_lookup(
                source@.subrange(k as int, n as int),
                name@,
            ),
            forall|j: int| 0 <= j < k ==> (#[trigger] source@[j]).0@ != name@,
        decreases n - k,
    {
        if String::eq(&source[k].0, name) {
            proof {
                assert(source@.subrange(k as int, n as int)[0] == source@[k as int]);
                assert(sp_source_lookup(source@.subrange(k as int, n as int), name@) == Some(
                    source@[k as int].1@,
                ));
            }
            return Some(&source[k].1);
        }
        k = k + 1;
        proof {
            let prev = source@.subrange(k - 1, n as int);
            assert(prev[0] == source@[k - 1]);
            assert(prev.drop_first() =~= source@.subrange(k as int, n as int));
        }
    }
    proof {
        assert(source@.subrange(n as int, n as int) =~= Seq::<(String, Vec<u8>)>::empty());
        if source_names(source@).contains(name@) {
            let k = choose|k: int| 0 <= k < source@.len() && source@[k].0@ == name@;
            assert(false);
        }
    }
    None
}

fn pending_has(pending: &Vec<sig::Class>, h: &sig::Class) -> (r: bool)
    ensures
        r == sp_pending_has(pending@, sig::view_class(*h)),
{
    let n = pending.len();
    let mut k: usize = 0;
    while k < n
        invariant
            k <= n,
            n == pending@.len(),
            forall|j: int| 0 <= j < k ==> sig::view_class(#[trigger] pending@[j]) != sig::view_class(
                *h,
            ),
        decreases n - k,
    {
        if sig::class_eq(&pending[k], h) {
            return true;
        }
        k = k + 1;
    }
    false
}

/// The cached position of a resolved handle: the first cache row whose key
/// has the given view.
pub open spec fn sp_cache_lookup(cache: Seq<(sig::Class, usize)>, h: sig::SpecClass) -> Option<int>
    decreases cache.len(),
{
    if cache.len() == 0 {
        None
    } else if sig::view_class(cache[0].0) == h {
        Some(cache[0].1 as int)
    } else {
        sp_cache_lookup(cache.drop_first(), h)
    }
}

pub open spec fn sp_cache_has(cache: Seq<(sig::Class, usize)>, h: sig::SpecClass) -> bool {
    sp_cache_lookup(cache, h) is Some
}

/// A missing handle matches no cache row.
pub proof fn lemma_cache_not_has(cache: Seq<(sig::Class, usize)>, h: sig::SpecClass)
    requires
        !sp_cache_has(cache, h),
    ensures
        forall|k: int| 0 <= k < cache.len() ==> sig::view_class((#[trigger] cache[k]).0) != h,
    decreases cache.len(),
{
    if cache.len() > 0 {
        lemma_cache_not_has(cache.drop_first(), h);
        assert forall|k: int| 0 <= k < cache.len() implies sig::view_class((#[trigger] cache[k]).0)
            != h by {
            if k > 0 {
                assert(cache.drop_first()[k - 1] == cache[k]);
            }
        }
    }
}

/// Appending a fresh handle to the cache makes lookups of that handle find
/// it and leaves every other lookup unchanged.
pub proof fn lemma_cache_lookup_push(cache: Seq<(sig::Class, usize)>, key: sig::Class, idx: usize, h: sig::SpecClass)
    ensures
        sp_cache_has(cache, h) ==> sp_cache_lookup(cache.push((key, idx)), h) == sp_cache_lookup(
            cache,
            h,
        ),
        !sp_cache_has(cache, h) && sig::view_class(key) == h ==> sp_cache_lookup(
            cache.push((key, idx)),
            h,
        ) == Some(idx as int),
        !sp_cache_has(cache, h) && sig::view_class(key) != h ==> sp_cache_lookup(
            cache.push((key, idx)),
            h,
        ) is None,
    decreases cache.len(),
{
    if cache.len() == 0 {
        assert(cache.push((key, idx))[0] == (key, idx));
        assert(cache.push((key, idx)).drop_first() =~= Seq::<(sig::Class, usize)>::empty());
        assert(sp_cache_lookup(cache.push((key, idx)).drop_first(), h) is None);
    } else {
        lemma_cache_lookup_push(cache.drop_first(), key, idx, h);
        assert(cache.push((key, idx)).drop_first() =~= cache.drop_first().push((key, idx)));
        assert(cache.push((key, idx))[0] == cache[0]);
    }
}

fn cache_find(cache: &Vec<(sig::Class, usize)>, h: &sig::Class) -> (r: Option<usize>)
    ensures
        match r {
            Some(i) => sp_cache_lookup(cache@, sig::view_class(*h)) == Some(i as int),
            None => !sp_cache_has(cache@, sig::view_class(*h)),
        },
{
    let n = cache.len();
    proof {
        assert(cache@.subrange(0, n as int) =~= cache@);
    }
    let mut k: usize = 0;
    while k < n
        invariant
            k <= n,
            n == cache@.len(),
            sp_cache_lookup(cache@, sig::view_class(*h)) == sp_cache_lookup(
                cache@.subrange(k as int, n as int),
                sig::view_class(*h),
            ),
        decreases n - k,
    {
        proof {
            assert(cache@.subrange(k as int, n as int)[0] == cache@[k as int]);
        }
        if sig::class_eq(&cache[k].0, h) {
            return Some(cache[k].1);
        }
        k = k + 1;
        proof {
            let prev = cache@.subrange(k - 1, n as int);
            assert(prev.drop_first() =~= cache@.subrange(k as int, n as int));
        }
    }
    proof {
        assert(cache@.subrange(n as int, n as int) =~= Seq::<(sig::Class, usize)>::empty());
    }
    None
}

/// The first table extends the second: same classes, possibly more after.
pub open spec fn extends_loaded(a: Seq<Class>, b: Seq<Class>) -> bool {
    a.len() <= b.len() && forall|i: int| 0 <= i < a.len() ==> a[i] == #[trigger] b[i]
}

/// The second cache extends the first: same rows, possibly more after.
pub open spec fn extends_cache(a: Seq<(sig::Class, usize)>, b: Seq<(sig::Class, usize)>) -> bool {
    a.len() <= b.len() && forall|i: int| 0 <= i < a.len() ==> a[i] == #[trigger] b[i]
}

/// The process-wide class cache and its pending set, driving resolution.
#[derive(Debug)]
pub struct ClassLoader {
    /// The resolved classes, in resolution order; cache rows point in here.
    loaded: Vec<Class>,
    /// The cache: each resolved handle mapped to its position in `loaded`.
    classes: Vec<(sig::Class, usize)>,
}

impl ClassLoader {
    pub closed spec fn s_loaded(&self) -> Seq<Class> {
        self.loaded@
    }

    pub closed spec fn s_cache(&self) -> Seq<(sig::Class, usize)> {
        self.classes@
    }

    /// The loader's internal consistency: every cache row points at a
    /// loaded class whose self-reference matches the row's handle, distinct
    /// rows name distinct handles, and every superclass link points
    /// strictly earlier in the table — the resolved class graph is acyclic
    /// by construction.
    pub open spec fn wf(&self) -> bool {
        &&& forall|k: int|
            0 <= k < self.s_cache().len() ==> (#[trigger] self.s_cache()[k]).1 < self.s_loaded().len()
        &&& forall|k: int|
            0 <= k < self.s_cache().len() ==> symref::view_class_ref(
                self.s_loaded()[(#[trigger] self.s_cache()[k]).1 as int].symref,
            ).sig == sig::view_class(self.s_cache()[k].0)
        &&& forall|k1: int, k2: int|
            0 <= k1 < k2 < self.s_cache().len() ==> sig::view_class(
                (#[trigger] self.s_cache()[k1]).0,
            ) != sig::view_class((#[trigger] self.s_cache()[k2]).0)
        &&& forall|j: int|
            0 <= j < self.s_loaded().len() ==> ((#[trigger] self.s_loaded()[j]).superclass matches
            Some(s) ==> (s as int) < j)
    }

    /// A fresh loader: nothing resolved, nothing cached.
    pub fn new() -> (r: Self)
        ensures
            r.wf(),
            r.s_loaded().len() == 0,
            r.s_cache().len() == 0,
    {
        ClassLoader { loaded: Vec::new(), classes: Vec::new() }
    }

    /// How many classes have been resolved.
    pub fn loaded_count(&self) -> (r: usize)
        ensures
            r == self.s_loaded().len(),
    {
        self.loaded.len()
    }

    /// The resolved class at the given position.
    pub fn get_class(&self, id: usize) -> (r: &Class)
        requires
            id < self.s_loaded().len(),
        ensures
            *r == self.s_loaded()[id as int],
    {
        &self.loaded[id]
    }

    /// Attempts to create, load and prepare the class named by `handle`,
    /// reading scalar class files from the byte-source table. Resolution is
    /// idempotent: a handle already in the cache is answered from the cache
    /// with the loader untouched, so the byte source is consulted at most
    /// once per handle. A failure is reported, never cached.
    pub fn load_class(&mut self, handle: &sig::Class, source: &Vec<(String, Vec<u8>)>) -> (r:
        Result<usize, Error>)
        requires
            old(self).wf(),
        ensures
            final(self).wf(),
            extends_loaded(old(self).s_loaded(), final(self).s_loaded()),
            extends_cache(old(self).s_cache(), final(self).s_cache()),
            rows_load_post(*final(self), old(self).s_cache().len() as int, source@),
            sp_cache_has(old(self).s_cache(), sig::view_class(*handle)) ==> r is Ok,
            match sig::view_class(*handle) {
                sig::SpecClass::Scalar(n) => !sp_cache_has(
                    old(self).s_cache(),
                    sig::view_class(*handle),
                ) ==> (match sp_source_lookup(source@, n) {
                    Option::None => r matches Err(Error::ClassNotFound),
                    Option::Some(bs) => match crate::parser::sp_class_file(bs) {
                        Err(pe) => r == Err::<usize, Error>(Error::ClassFormat(pe)),
                        Ok(cfp) => ({
                            let cf = cfp.0;
                            if !(45 <= cf.major_version <= 52) {
                                r == Err::<usize, Error>(
                                    Error::UnsupportedVersion {
                                        major: cf.major_version,
                                        minor: cf.minor_version,
                                    },
                                )
                            } else {
                                match crate::runtime::sp_class_sig_at(
                                    cf.constant_pool,
                                    cf.this_class as int,
                                ) {
                                    Err(pe) => r == Err::<usize, Error>(Error::RuntimePool(pe)),
                                    Ok(decl) => decl != sig::view_class(*handle) ==> (r matches Err(
                                        Error::NoClassDefFound,
                                    )),
                                }
                            }
                        }),
                    },
                }),
                _ => true,
            },
            match sig::view_class(*handle) {
                sig::SpecClass::Scalar(n) => (!sp_cache_has(
                    old(self).s_cache(),
                    sig::view_class(*handle),
                ) && fresh_load_ready(sig::view_class(*handle), n, source@)) ==> r is Ok,
                _ => true,
            },
            match r {
                Ok(idx) => idx < final(self).s_loaded().len() && sp_cache_lookup(
                    final(self).s_cache(),
                    sig::view_class(*handle),
                ) == Some(idx as int) && symref::view_class_ref(
                    final(self).s_loaded()[idx as int].symref,
                ).sig == sig::view_class(*handle) && (sp_cache_has(
                    old(self).s_cache(),
                    sig::view_class(*handle),
                ) ==> *final(self) == *old(self) && sp_cache_lookup(
                    old(self).s_cache(),
                    sig::view_class(*handle),
                ) == Some(idx as int)) && (match sig::view_class(*handle) {
                    sig::SpecClass::Scalar(n) => !sp_cache_has(
                        old(self).s_cache(),
                        sig::view_class(*handle),
                    ) ==> scalar_load_post(*final(self), idx as int, n, source@),
                    sig::SpecClass::Array(t) => !sp_cache_has(
                        old(self).s_cache(),
                        sig::view_class(*handle),
                    ) ==> array_load_post(*final(self), idx as int, *t),
                }),
                Err(_) => !sp_cache_has(final(self).s_cache(), sig::view_class(*handle)),
            },
    {
        let pending: Vec<sig::Class> = Vec::new();
        proof {
            assert(!sp_pending_has(pending@, sig::view_class(*handle)));
        }
        let (r, _pending) = load_class_rec(self, handle, source, pending);
        r
    }
}

/// What a freshly resolved scalar class is: the byte source serves the
/// class's bytes, they parse, the version is supported, and the class at
/// `idx` is built exactly from the parsed file — its runtime pool from the
/// parsed pool, its field and method tables through that pool, and its
/// superclass link pointing at a resolved class of the declared super
/// signature.
pub open spec fn scalar_load_post(
    loader: ClassLoader,
    idx: int,
    n: Seq<char>,
    source: Seq<(String, Vec<u8>)>,
) -> bool {
    match sp_source_lookup(source, n) {
        Option::None => false,
        Option::Some(bs) => {
            &&& 0 <= idx < loader.s_loaded().len()
            &&& crate::parser::sp_class_file(bs) is Ok
            &&& ({
                let cf = crate::parser::sp_class_file(bs)->Ok_0.0;
                let c = view_class_data(loader.s_loaded()[idx]);
                &&& 45 <= cf.major_version <= 52
                &&& crate::runtime::sp_build_rcp(cf.constant_pool, 0) is Ok
                &&& c.access_flags == cf.access_flags
                &&& c.constant_pool == crate::runtime::sp_build_rcp(cf.constant_pool, 0)->Ok_0
                &&& sp_build_fields(c.constant_pool, cf.fields, 0) is Ok
                &&& c.class_fields == sp_build_fields(c.constant_pool, cf.fields, 0)->Ok_0.0
                &&& c.instance_fields == sp_build_fields(c.constant_pool, cf.fields, 0)->Ok_0.1
                &&& sp_build_methods(c.constant_pool, c.symref, cf.methods, 0) is Ok
                &&& c.methods == sp_build_methods(c.constant_pool, c.symref, cf.methods, 0)->Ok_0
                &&& (cf.super_class == 0 ==> c.superclass is None)
                &&& (cf.super_class != 0 ==> (c.superclass matches Some(s) && (s as int) < idx
                    && crate::runtime::sp_class_sig_at(
                    cf.constant_pool,
                    cf.super_class as int,
                ) is Ok && sp_cache_lookup(
                    loader.s_cache(),
                    crate::runtime::sp_class_sig_at(
                        cf.constant_pool,
                        cf.super_class as int,
                    )->Ok_0,
                ) == Some(s as int)))
            })
        },
    }
}

/// The signature of the platform's universal root class, which every
/// array class extends.
pub open spec fn root_class_sig() -> sig::SpecClass {
    sig::SpecClass::Scalar("java/lang/Object"@)
}

/// What a freshly resolved array class is: the root class stands resolved
/// and is the array's superclass, the array's only instance field is the
/// fixed `length` descriptor, it has no methods and an empty pool, and a
/// reference component's element class stands resolved as well.
pub open spec fn array_load_post(loader: ClassLoader, idx: int, component: sig::SpecType) -> bool {
    &&& 0 <= idx < loader.s_loaded().len()
    &&& ({
        let c = view_class_data(loader.s_loaded()[idx]);
        &&& c.symref == symref::SpecClassRef { sig: sig::SpecClass::Array(Box::new(component)) }
        &&& (c.superclass matches Some(o) && (o as int) < idx && sp_cache_lookup(
            loader.s_cache(),
            root_class_sig(),
        ) == Some(o as int))
        &&& c.access_flags == 0
        &&& c.constant_pool == Seq::<Option<SpecRcpEntry>>::empty()
        &&& c.class_fields == Seq::<(sig::SpecField, SpecValue)>::empty()
        &&& c.instance_fields == seq![sig::SpecField { name: "length"@, ty: sig::SpecType::Int }]
        &&& c.methods == Seq::<(sig::SpecMethod, SpecMethodData)>::empty()
        &&& (component matches sig::SpecType::Reference(inner) ==> sp_cache_has(
            loader.s_cache(),
            inner,
        ))
    })
}

/// The load-outcome of every cache row in the given range: a scalar row
/// satisfies `scalar_load_post`, an array row `array_load_post`, each
/// against this source.
pub open spec fn rows_load_post(
    loader: ClassLoader,
    lo: int,
    source: Seq<(String, Vec<u8>)>,
) -> bool {
    forall|k: int|
        lo <= k < loader.s_cache().len() ==> (match sig::view_class(
            (#[trigger] loader.s_cache()[k]).0,
        ) {
            sig::SpecClass::Scalar(n) => scalar_load_post(
                loader,
                loader.s_cache()[k].1 as int,
                n,
                source,
            ),
            sig::SpecClass::Array(t) => array_load_post(loader, loader.s_cache()[k].1 as int, *t),
        })
}

/// A cached handle keeps its position as the cache grows.
pub proof fn lemma_cache_lookup_stable(
    before: Seq<(sig::Class, usize)>,
    after: Seq<(sig::Class, usize)>,
    h: sig::SpecClass,
    i: int,
)
    requires
        sp_cache_lookup(before, h) == Some(i),
        extends_cache(before, after),
    ensures
        sp_cache_lookup(after, h) == Some(i),
    decreases before.len(),
{
    if before.len() > 0 {
        assert(after[0] == before[0]);
        if sig::view_class(before[0].0) == h {
        } else {
            assert forall|j: int| 0 <= j < before.drop_first().len() implies before.drop_first()[j]
                == #[trigger] after.drop_first()[j] by {
                assert(before.drop_first()[j] == before[j + 1]);
                assert(after.drop_first()[j] == after[j + 1]);
            }
            lemma_cache_lookup_stable(before.drop_first(), after.drop_first(), h, i);
        }
    }
}

/// A successful lookup names a cache row holding the handle and position.
pub proof fn lemma_cache_lookup_row(cache: Seq<(sig::Class, usize)>, h: sig::SpecClass, i: int)
    requires
        sp_cache_lookup(cache, h) == Some(i),
    ensures
        exists|k: int|
            0 <= k < cache.len() && sig::view_class((#[trigger] cache[k]).0) == h && cache[k].1
                == i,
    decreases cache.len(),
{
    if cache.len() > 0 {
        if sig::view_class(cache[0].0) == h {
            assert(sig::view_class((cache[0]).0) == h && cache[0].1 == i);
        } else {
            lemma_cache_lookup_row(cache.drop_first(), h, i);
            let k = choose|k: int|
                0 <= k < cache.drop_first().len() && sig::view_class(
                    (#[trigger] cache.drop_first()[k]).0,
                ) == h && cache.drop_first()[k].1 == i;
            assert(cache[k + 1] == cache.drop_first()[k]);
            assert(sig::view_class((cache[k + 1]).0) == h && cache[k + 1].1 == i);
        }
    }
}

/// Any cache row makes its handle cached.
pub proof fn lemma_cache_row_has(cache: Seq<(sig::Class, usize)>, k: int)
    requires
        0 <= k < cache.len(),
    ensures
        sp_cache_has(cache, sig::view_class(cache[k].0)),
    decreases cache.len(),
{
    if k == 0 {
    } else if sig::view_class(cache[0].0) == sig::view_class(cache[k].0) {
    } else {
        assert(cache.drop_first()[k - 1] == cache[k]);
        lemma_cache_row_has(cache.drop_first(), k - 1);
    }
}

/// The file the byte source serves for class `n` parses and declares class
/// `m` as its direct superclass.
pub open spec fn declares_super(source: Seq<(String, Vec<u8>)>, n: Seq<char>, m: Seq<char>) -> bool {
    match sp_source_lookup(source, n) {
        Option::None => false,
        Option::Some(bs) => crate::parser::sp_class_file(bs) is Ok && ({
            let cf = crate::parser::sp_class_file(bs)->Ok_0.0;
            cf.super_class != 0 && crate::runtime::sp_class_sig_at(
                cf.constant_pool,
                cf.super_class as int,
            ) == Ok::<sig::SpecClass, PoolError>(sig::SpecClass::Scalar(m))
        }),
    }
}

/// Whether a fresh scalar load of `hv` (named `n`) is owed success: the
/// source serves a parseable, version-supported, self-contained file — no
/// declared superclass or superinterfaces — declaring exactly `hv`, whose
/// pool, field and method tables build. On such an input resolution cannot
/// fail.
pub open spec fn fresh_load_ready(
    hv: sig::SpecClass,
    n: Seq<char>,
    source: Seq<(String, Vec<u8>)>,
) -> bool {
    match sp_source_lookup(source, n) {
        Option::None => false,
        Option::Some(bs) => crate::parser::sp_class_file(bs) is Ok && ({
            let cf = crate::parser::sp_class_file(bs)->Ok_0.0;
            let rcp = crate::runtime::sp_build_rcp(cf.constant_pool, 0);
            &&& 45 <= cf.major_version <= 52
            &&& crate::runtime::sp_class_sig_at(cf.constant_pool, cf.this_class as int) == Ok::<
                sig::SpecClass,
                PoolError,
            >(hv)
            &&& cf.super_class == 0
            &&& cf.interfaces.len() == 0
            &&& rcp is Ok
            &&& sp_build_fields(rcp->Ok_0, cf.fields, 0) is Ok
            &&& sp_build_methods(
                rcp->Ok_0,
                symref::SpecClassRef { sig: hv },
                cf.methods,
                0,
            ) is Ok
        }),
    }
}

/// A class can never be resolved as its own transitive superclass: on a
/// byte source where the file of class `a` declares superclass `b` and the
/// file of `b` declares superclass `a`, no loader state that satisfies the
/// resolution contract's clauses can hold `a` resolved. Resolution of such
/// a hierarchy must fail — the engine reports it as a circularity error,
/// and its termination is checked besides, so it cannot recurse unboundedly
/// either.
pub proof fn lemma_circular_hierarchy_fails(
    loader0: ClassLoader,
    loader1: ClassLoader,
    source: Seq<(String, Vec<u8>)>,
    a: Seq<char>,
    b: Seq<char>,
)
    requires
        loader1.wf(),
        extends_cache(loader0.s_cache(), loader1.s_cache()),
        rows_load_post(loader1, loader0.s_cache().len() as int, source),
        !sp_cache_has(loader0.s_cache(), sig::SpecClass::Scalar(a)),
        !sp_cache_has(loader0.s_cache(), sig::SpecClass::Scalar(b)),
        declares_super(source, a, b),
        declares_super(source, b, a),
    ensures
        !sp_cache_has(loader1.s_cache(), sig::SpecClass::Scalar(a)),
{
    if sp_cache_has(loader1.s_cache(), sig::SpecClass::Scalar(a)) {
        let old_len = loader0.s_cache().len() as int;
        let ha = sig::SpecClass::Scalar(a);
        let hb = sig::SpecClass::Scalar(b);
        let ia = sp_cache_lookup(loader1.s_cache(), ha)->Some_0;
        lemma_cache_lookup_row(loader1.s_cache(), ha, ia);
        let ka = choose|k: int|
            0 <= k < loader1.s_cache().len() && sig::view_class(
                (#[trigger] loader1.s_cache()[k]).0,
            ) == ha && loader1.s_cache()[k].1 == ia;
        assert(ka >= old_len) by {
            if ka < old_len {
                assert(loader1.s_cache()[ka] == loader0.s_cache()[ka]);
                lemma_cache_row_has(loader0.s_cache(), ka);
            }
        }
        assert(scalar_load_post(loader1, ia, a, source));
        let bs_a = sp_source_lookup(source, a)->Some_0;
        let cf_a = crate::parser::sp_class_file(bs_a)->Ok_0.0;
        let sb = view_class_data(loader1.s_loaded()[ia]).superclass->Some_0;
        assert(sp_cache_lookup(loader1.s_cache(), hb) == Some(sb as int));
        assert((sb as int) < ia);
        lemma_cache_lookup_row(loader1.s_cache(), hb, sb as int);
        let kb = choose|k: int|
            0 <= k < loader1.s_cache().len() && sig::view_class(
                (#[trigger] loader1.s_cache()[k]).0,
            ) == hb && loader1.s_cache()[k].1 == sb;
        assert(kb >= old_len) by {
            if kb < old_len {
                assert(loader1.s_cache()[kb] == loader0.s_cache()[kb]);
                lemma_cache_row_has(loader0.s_cache(), kb);
            }
        }
        assert(scalar_load_post(loader1, sb as int, b, source));
        let bs_b = sp_source_lookup(source, b)->Some_0;
        let cf_b = crate::parser::sp_class_file(bs_b)->Ok_0.0;
        let sa2 = view_class_data(loader1.s_loaded()[sb as int]).superclass->Some_0;
        assert(sp_cache_lookup(loader1.s_cache(), ha) == Some(sa2 as int));
        assert((sa2 as int) < sb as int);
        assert(sa2 as int == ia);
    }
}

/// A scalar load-outcome keeps holding as the loader grows.
pub proof fn lemma_scalar_post_stable(
    loader1: ClassLoader,
    loader2: ClassLoader,
    idx: int,
    n: Seq<char>,
    source: Seq<(String, Vec<u8>)>,
)
    requires
        scalar_load_post(loader1, idx, n, source),
        extends_loaded(loader1.s_loaded(), loader2.s_loaded()),
        extends_cache(loader1.s_cache(), loader2.s_cache()),
    ensures
        scalar_load_post(loader2, idx, n, source),
{
    let bs = sp_source_lookup(source, n)->Some_0;
    let cf = crate::parser::sp_class_file(bs)->Ok_0.0;
    assert(loader2.s_loaded()[idx] == loader1.s_loaded()[idx]);
    if cf.super_class != 0 {
        let super_sig = crate::runtime::sp_class_sig_at(cf.constant_pool, cf.super_class as int)->Ok_0;
        let s = view_class_data(loader1.s_loaded()[idx]).superclass->Some_0;
        lemma_cache_lookup_stable(loader1.s_cache(), loader2.s_cache(), super_sig, s as int);
    }
}

/// An array load-outcome keeps holding as the loader grows.
pub proof fn lemma_array_post_stable(
    loader1: ClassLoader,
    loader2: ClassLoader,
    idx: int,
    component: sig::SpecType,
)
    requires
        array_load_post(loader1, idx, component),
        extends_loaded(loader1.s_loaded(), loader2.s_loaded()),
        extends_cache(loader1.s_cache(), loader2.s_cache()),
    ensures
        array_load_post(loader2, idx, component),
{
    assert(loader2.s_loaded()[idx] == loader1.s_loaded()[idx]);
    let o = view_class_data(loader1.s_loaded()[idx]).superclass->Some_0;
    lemma_cache_lookup_stable(loader1.s_cache(), loader2.s_cache(), root_class_sig(), o as int);
    match component {
        sig::SpecType::Reference(inner) => {
            lemma_cache_grows(loader1.s_cache(), loader2.s_cache(), inner);
        },
        _ => {},
    }
}

/// All rows' load-outcomes keep holding as the loader grows.
pub proof fn lemma_rows_post_stable(
    loader1: ClassLoader,
    loader2: ClassLoader,
    lo: int,
    source: Seq<(String, Vec<u8>)>,
)
    requires
        0 <= lo,
        rows_load_post(loader1, lo, source),
        extends_loaded(loader1.s_loaded(), loader2.s_loaded()),
        extends_cache(loader1.s_cache(), loader2.s_cache()),
    ensures
        rows_load_post_upto(loader2, lo, loader1.s_cache().len() as int, source),
{
    assert forall|k: int|
        lo <= k < loader1.s_cache().len() implies (match sig::view_class(
        (#[trigger] loader2.s_cache()[k]).0,
    ) {
        sig::SpecClass::Scalar(n) => scalar_load_post(
            loader2,
            loader2.s_cache()[k].1 as int,
            n,
            source,
        ),
        sig::SpecClass::Array(t) => array_load_post(loader2, loader2.s_cache()[k].1 as int, *t),
    }) by {
        assert(loader2.s_cache()[k] == loader1.s_cache()[k]);
        match sig::view_class(loader1.s_cache()[k].0) {
            sig::SpecClass::Scalar(n) => {
                lemma_scalar_post_stable(
                    loader1,
                    loader2,
                    loader1.s_cache()[k].1 as int,
                    n,
                    source,
                );
            },
            sig::SpecClass::Array(t) => {
                lemma_array_post_stable(loader1, loader2, loader1.s_cache()[k].1 as int, *t);
            },
        }
    }
}

/// The load-outcome of the cache rows in `[lo, hi)`.
pub open spec fn rows_load_post_upto(
    loader: ClassLoader,
    lo: int,
    hi: int,
    source: Seq<(String, Vec<u8>)>,
) -> bool {
    forall|k: int|
        lo <= k < hi && k < loader.s_cache().len() ==> (match sig::view_class(
            (#[trigger] loader.s_cache()[k]).0,
        ) {
            sig::SpecClass::Scalar(n) => scalar_load_post(
                loader,
                loader.s_cache()[k].1 as int,
                n,
                source,
            ),
            sig::SpecClass::Array(t) => array_load_post(loader, loader.s_cache()[k].1 as int, *t),
        })
}

/// The recursive heart of resolution. The pending set names every handle
/// whose resolution is in progress up the call stack: meeting one again is
/// a circularity, not a recursion. The set comes back exactly as it went
/// in — no pending marker ever leaks, whether the call succeeds or fails.
#[verifier::loop_isolation(false)]
#[verifier::rlimit(100)]
fn load_class_rec(
    loader: &mut ClassLoader,
    handle: &sig::Class,
    source: &Vec<(String, Vec<u8>)>,
    pending: Vec<sig::Class>,
) -> (res: (Result<usize, Error>, Vec<sig::Class>))
    requires
        old(loader).wf(),
    ensures
        final(loader).wf(),
        res.1@ == pending@,
        extends_loaded(old(loader).s_loaded(), final(loader).s_loaded()),
        extends_cache(old(loader).s_cache(), final(loader).s_cache()),
        forall|hv: sig::SpecClass|
            sp_pending_has(pending@, hv) && !sp_cache_has(old(loader).s_cache(), hv)
                ==> !sp_cache_has(final(loader).s_cache(), hv),
        rows_load_post(*final(loader), old(loader).s_cache().len() as int, source@),
        sp_cache_has(old(loader).s_cache(), sig::view_class(*handle)) && !sp_pending_has(
            pending@,
            sig::view_class(*handle),
        ) ==> res.0 is Ok,
        match sig::view_class(*handle) {
            sig::SpecClass::Scalar(n) => (!sp_pending_has(pending@, sig::view_class(*handle))
                && !sp_cache_has(old(loader).s_cache(), sig::view_class(*handle))) ==> (
            match sp_source_lookup(source@, n) {
                Option::None => res.0 matches Err(Error::ClassNotFound),
                Option::Some(bs) => match crate::parser::sp_class_file(bs) {
                    Err(pe) => res.0 == Err::<usize, Error>(Error::ClassFormat(pe)),
                    Ok(cfp) => ({
                        let cf = cfp.0;
                        if !(45 <= cf.major_version <= 52) {
                            res.0 == Err::<usize, Error>(
                                Error::UnsupportedVersion {
                                    major: cf.major_version,
                                    minor: cf.minor_version,
                                },
                            )
                        } else {
                            match crate::runtime::sp_class_sig_at(
                                cf.constant_pool,
                                cf.this_class as int,
                            ) {
                                Err(pe) => res.0 == Err::<usize, Error>(Error::RuntimePool(pe)),
                                Ok(decl) => decl != sig::view_class(*handle) ==> (
                                res.0 matches Err(Error::NoClassDefFound)),
                            }
                        }
                    }),
                },
            }),
            _ => true,
        },
        match sig::view_class(*handle) {
            sig::SpecClass::Scalar(n) => (!sp_pending_has(pending@, sig::view_class(*handle))
                && !sp_cache_has(old(loader).s_cache(), sig::view_class(*handle))
                && fresh_load_ready(sig::view_class(*handle), n, source@)) ==> res.0 is Ok,
            _ => true,
        },
        match res.0 {
            Ok(idx) => idx < final(loader).s_loaded().len() && sp_cache_lookup(
                final(loader).s_cache(),
                sig::view_class(*handle),
            ) == Some(idx as int) && symref::view_class_ref(
                final(loader).s_loaded()[idx as int].symref,
            ).sig == sig::view_class(*handle) && (sp_cache_has(
                old(loader).s_cache(),
                sig::view_class(*handle),
            ) ==> *final(loader) == *old(loader) && sp_cache_lookup(
                old(loader).s_cache(),
                sig::view_class(*handle),
            ) == Some(idx as int)) && (match sig::view_class(*handle) {
                sig::SpecClass::Scalar(n) => (!sp_pending_has(pending@, sig::view_class(*handle))
                    && !sp_cache_has(old(loader).s_cache(), sig::view_class(*handle)))
                    ==> scalar_load_post(*final(loader), idx as int, n, source@),
                sig::SpecClass::Array(t) => (!sp_pending_has(pending@, sig::view_class(*handle))
                    && !sp_cache_has(old(loader).s_cache(), sig::view_class(*handle)))
                    ==> array_load_post(*final(loader), idx as int, *t),
            }),
            Err(e) => (!sp_pending_has(pending@, sig::view_class(*handle)) ==> !sp_cache_has(
                final(loader).s_cache(),
                sig::view_class(*handle),
            )) && (sp_pending_has(pending@, sig::view_class(*handle)) ==> (
            e matches Error::ClassCircularity) && *final(loader) == *old(loader)),
        },
    decreases
            source_names(source@).difference(pending_names(pending@)).len(),
            sig::class_size(sig::view_class(*handle)),
{
    let ghost hv = sig::view_class(*handle);
    let ghost pending0 = pending@;
    let ghost cache_len0 = old(loader).s_cache().len() as int;
    if pending_has(&pending, handle) {
        return (Err(Error::ClassCircularity), pending);
    }
    match cache_find(&loader.classes, handle) {
        Option::Some(i) => {
            proof {
                lemma_cache_lookup_valid(loader.s_cache(), loader.s_loaded(), hv, i as int);
            }
            return (Ok(i), pending);
        },
        Option::None => {},
    }
    match handle {
        sig::Class::Scalar(name) => load_scalar_rec(loader, handle, name, source, pending),
        sig::Class::Array(component) => {
        let mut pending = pending;
        pending.push(sig::clone_class(handle));
        let ghost pending1 = pending@;
        proof {
            assert(pending1.drop_last() =~= pending0);
            assert(sp_pending_has(pending@, hv)) by {
                assert(sig::view_class(pending@[pending@.len() - 1]) == hv);
            }
            assert forall|hv2: sig::SpecClass| sp_pending_has(pending0, hv2) implies sp_pending_has(
                pending1,
                hv2,
            ) by {
                let k = choose|k: int|
                    0 <= k < pending0.len() && sig::view_class(pending0[k]) == hv2;
                assert(pending1[k] == pending0[k]);
            }
        }
            proof {
                assert(pending_names(pending@) =~= pending_names(pending0));
                lemma_source_names_finite(source@);
            }
            match &**component {
                sig::Type::Reference(inner) => {
                    let (r2, pending2) = load_class_rec(loader, inner, source, pending);
                    pending = pending2;
                    proof {
                        assert(rows_load_post(*loader, cache_len0, source@));
                    }
                    match r2 {
                        Ok(_) => {},
                        Err(e) => {
                            let _ = pending.pop();
                            proof {
                                assert(pending@ =~= pending0);
                            }
                            return (Err(e), pending);
                        },
                    }
                },
                _ => {},
            }
            proof {
                assert(rows_load_post(*loader, cache_len0, source@));
                match sig::view_type(**component) {
                    sig::SpecType::Reference(inner_v) => {
                        assert(sp_cache_has(loader.s_cache(), inner_v));
                    },
                    _ => {},
                }
            }
            let ghost loader_before_obj = *loader;
            let object_handle = sig::Class::Scalar("java/lang/Object".to_owned());
            proof {
                assert(sig::view_class(object_handle) == root_class_sig());
            }
            let (r3, pending3) = load_class_rec(loader, &object_handle, source, pending);
            pending = pending3;
            proof {
                lemma_rows_post_stable(loader_before_obj, *loader, cache_len0, source@);
                assert(rows_load_post(*loader, cache_len0, source@));
            }
            let obj_idx = match r3 {
                Ok(i) => i,
                Err(e) => {
                    let _ = pending.pop();
                    proof {
                        assert(pending@ =~= pending0);
                    }
                    return (Err(e), pending);
                },
            };
            proof {
                match sig::view_type(**component) {
                    sig::SpecType::Reference(inner_v) => {
                        lemma_cache_grows(
                            loader_before_obj.s_cache(),
                            loader.s_cache(),
                            inner_v,
                        );
                    },
                    _ => {},
                }
            }
            let cls = Class::new_array(obj_idx, sig::clone_type(component));
            let key = sig::clone_class(handle);
            let ghost keyv = key;
            let idx = loader.loaded.len();
            let ghost cache_before = loader.s_cache();
            proof {
                assert(!sp_cache_has(cache_before, hv));
                lemma_cache_not_has(cache_before, hv);
            }
            let ghost loader_before_push = *loader;
            loader.loaded.push(cls);
            loader.classes.push((key, idx));
            proof {
                assert(loader.s_cache() == cache_before.push((keyv, idx)));
                lemma_cache_lookup_push(cache_before, keyv, idx, hv);
                assert forall|hv2: sig::SpecClass|
                    sp_pending_has(pending0, hv2) && !sp_cache_has(
                        old(loader).s_cache(),
                        hv2,
                    ) implies !sp_cache_has(loader.s_cache(), hv2) by {
                    assert(sp_pending_has(pending1, hv2));
                    assert(!sp_cache_has(cache_before, hv2));
                    lemma_cache_lookup_push(cache_before, keyv, idx, hv2);
                }
                // the freshly cached array class is exactly the built one
                lemma_cache_lookup_stable(
                    cache_before,
                    loader.s_cache(),
                    root_class_sig(),
                    obj_idx as int,
                );
                match sig::view_type(**component) {
                    sig::SpecType::Reference(inner_v) => {
                        lemma_cache_grows(cache_before, loader.s_cache(), inner_v);
                    },
                    _ => {},
                }
                assert(array_load_post(*loader, idx as int, sig::view_type(**component)));
                lemma_rows_post_stable(loader_before_push, *loader, cache_len0, source@);
                assert forall|k: int|
                    cache_len0 <= k < loader.s_cache().len() implies (match sig::view_class(
                    (#[trigger] loader.s_cache()[k]).0,
                ) {
                    sig::SpecClass::Scalar(n2) => scalar_load_post(
                        *loader,
                        loader.s_cache()[k].1 as int,
                        n2,
                        source@,
                    ),
                    sig::SpecClass::Array(t2) => array_load_post(
                        *loader,
                        loader.s_cache()[k].1 as int,
                        *t2,
                    ),
                }) by {
                    if k < cache_before.len() {
                        assert(rows_load_post_upto(
                            *loader,
                            cache_len0,
                            cache_before.len() as int,
                            source@,
                        ));
                    } else {
                        assert(loader.s_cache()[k] == (keyv, idx));
                        assert(sig::view_class(keyv) == sig::SpecClass::Array(
                            Box::new(sig::view_type(**component)),
                        ));
                    }
                }
                assert(rows_load_post(*loader, cache_len0, source@));
            }
            let _ = pending.pop();
            proof {
                assert(pending@ =~= pending0);
            }
            (Ok(idx), pending)
        },
    }
}

/// Resolution of one scalar class whose handle is neither cached nor
/// pending: locate its bytes, parse and check them, resolve the declared
/// superclass and superinterfaces, build the runtime pool, construct the
/// class, and cache it. The handle is marked pending for the duration and
/// unmarked on every exit path.
#[verifier::loop_isolation(false)]
#[verifier::rlimit(100)]
fn load_scalar_rec(
    loader: &mut ClassLoader,
    handle: &sig::Class,
    name: &String,
    source: &Vec<(String, Vec<u8>)>,
    pending: Vec<sig::Class>,
) -> (res: (Result<usize, Error>, Vec<sig::Class>))
    requires
        old(loader).wf(),
        sig::view_class(*handle) == sig::SpecClass::Scalar(name@),
        !sp_pending_has(pending@, sig::SpecClass::Scalar(name@)),
        !sp_cache_has(old(loader).s_cache(), sig::SpecClass::Scalar(name@)),
    ensures
        final(loader).wf(),
        res.1@ == pending@,
        extends_loaded(old(loader).s_loaded(), final(loader).s_loaded()),
        extends_cache(old(loader).s_cache(), final(loader).s_cache()),
        forall|hv2: sig::SpecClass|
            sp_pending_has(pending@, hv2) && !sp_cache_has(old(loader).s_cache(), hv2)
                ==> !sp_cache_has(final(loader).s_cache(), hv2),
        rows_load_post(*final(loader), old(loader).s_cache().len() as int, source@),
        match sp_source_lookup(source@, name@) {
            Option::None => res.0 matches Err(Error::ClassNotFound),
            Option::Some(bs) => match crate::parser::sp_class_file(bs) {
                Err(pe) => res.0 == Err::<usize, Error>(Error::ClassFormat(pe)),
                Ok(cfp) => ({
                    let cf = cfp.0;
                    if !(45 <= cf.major_version <= 52) {
                        res.0 == Err::<usize, Error>(
                            Error::UnsupportedVersion {
                                major: cf.major_version,
                                minor: cf.minor_version,
                            },
                        )
                    } else {
                        match crate::runtime::sp_class_sig_at(
                            cf.constant_pool,
                            cf.this_class as int,
                        ) {
                            Err(pe) => res.0 == Err::<usize, Error>(Error::RuntimePool(pe)),
                            Ok(decl) => decl != sig::SpecClass::Scalar(name@) ==> (
                            res.0 matches Err(Error::NoClassDefFound)),
                        }
                    }
                }),
            },
        },
        fresh_load_ready(sig::SpecClass::Scalar(name@), name@, source@) ==> res.0 is Ok,
        match res.0 {
            Ok(idx) => idx < final(loader).s_loaded().len() && sp_cache_lookup(
                final(loader).s_cache(),
                sig::SpecClass::Scalar(name@),
            ) == Some(idx as int) && symref::view_class_ref(
                final(loader).s_loaded()[idx as int].symref,
            ).sig == sig::SpecClass::Scalar(name@) && scalar_load_post(
                *final(loader),
                idx as int,
                name@,
                source@,
            ),
            Err(e) => !sp_cache_has(final(loader).s_cache(), sig::SpecClass::Scalar(name@)),
        },
    decreases source_names(source@).difference(pending_names(pending@)).len(), 0nat,
{
    let ghost hv = sig::view_class(*handle);
    let ghost pending0 = pending@;
    let ghost cache_len0 = old(loader).s_cache().len() as int;
    let mut pending = pending;
    pending.push(sig::clone_class(handle));
    let ghost pending1 = pending@;
    proof {
        assert(pending1.drop_last() =~= pending0);
        assert(sp_pending_has(pending@, hv)) by {
            assert(sig::view_class(pending@[pending@.len() - 1]) == hv);
        }
        assert forall|hv2: sig::SpecClass| sp_pending_has(pending0, hv2) implies sp_pending_has(
            pending1,
            hv2,
        ) by {
            let k = choose|k: int|
                0 <= k < pending0.len() && sig::view_class(pending0[k]) == hv2;
            assert(pending1[k] == pending0[k]);
        }
    }
    proof {
        assert forall|hv2: sig::SpecClass| sp_pending_has(pending1, hv2) implies (
        sp_pending_has(pending0, hv2) || hv2 == hv) by {
            let k = choose|k: int|
                0 <= k < pending1.len() && sig::view_class(pending1[k]) == hv2;
            if k < pending0.len() {
                assert(pending1[k] == pending0[k]);
            }
        }
    }
    let bytes = match source_lookup(source, name) {
        Option::Some(b) => b,
        Option::None => {
            let _ = pending.pop();
            proof {
                assert(pending@ =~= pending0);
            }
            return (Err(Error::ClassNotFound), pending);
        },
    };
    proof {
        // the recursion budget shrinks: this name now stands in the
        // pending set and can no longer be re-entered
        lemma_source_names_finite(source@);
        assert(sig::view_class(*handle) == sig::SpecClass::Scalar(name@));
        assert forall|n: Seq<char>| pending_names(pending@).contains(n) implies
            pending_names(pending0).insert(name@).contains(n) by {
            let k = choose|k: int|
                0 <= k < pending@.len() && sig::view_class(pending@[k])
                    == sig::SpecClass::Scalar(n);
            if k < pending0.len() {
                assert(pending@[k] == pending0[k]);
            } else {
                assert(sig::view_class(pending@[k]) == sig::SpecClass::Scalar(name@));
            }
        }
        assert forall|n: Seq<char>| pending_names(pending0).insert(name@).contains(
            n,
        ) implies pending_names(pending@).contains(n) by {
            if n == name@ {
                assert(sig::view_class(pending@[pending@.len() - 1])
                    == sig::SpecClass::Scalar(n));
            } else {
                let k = choose|k: int|
                    0 <= k < pending0.len() && sig::view_class(pending0[k])
                        == sig::SpecClass::Scalar(n);
                assert(pending@[k] == pending0[k]);
                assert(sig::view_class(pending@[k]) == sig::SpecClass::Scalar(n));
            }
        }
        assert(pending_names(pending@) =~= pending_names(pending0).insert(name@));
    }
    let cf = match crate::parser::parse_class_file(bytes) {
        Ok(cf) => cf,
        Err(pe) => {
            let _ = pending.pop();
            proof {
                assert(pending@ =~= pending0);
            }
            return (Err(Error::ClassFormat(pe)), pending);
        },
    };
    if !(45 <= cf.major_version && cf.major_version <= 52) {
        let e = Error::UnsupportedVersion {
            major: cf.major_version,
            minor: cf.minor_version,
        };
        let _ = pending.pop();
        proof {
            assert(pending@ =~= pending0);
        }
        return (Err(e), pending);
    }
    let declared = match crate::runtime::exec_class_sig_at(
        &cf.constant_pool,
        cf.this_class,
    ) {
        Ok(c) => c,
        Err(pe) => {
            let _ = pending.pop();
            proof {
                assert(pending@ =~= pending0);
            }
            return (Err(Error::RuntimePool(pe)), pending);
        },
    };
    if !sig::class_eq(&declared, handle) {
        let _ = pending.pop();
        proof {
            assert(pending@ =~= pending0);
        }
        return (Err(Error::NoClassDefFound), pending);
    }
    let ghost cfv = crate::model::view_class_file(cf);
    let ghost bytesv = bytes@;
    let superclass_idx: Option<usize> = if cf.super_class == 0 {
        Option::None
    } else {
        let ssig = match crate::runtime::exec_class_sig_at(
            &cf.constant_pool,
            cf.super_class,
        ) {
            Ok(c) => c,
            Err(pe) => {
                let _ = pending.pop();
                proof {
                    assert(pending@ =~= pending0);
                }
                return (Err(Error::RuntimePool(pe)), pending);
            },
        };
        proof {
            source_names(source@).lemma_set_insert_diff_decreases(
                pending_names(pending0),
                name@,
            );
        }
        let (r2, pending2) = load_class_rec(loader, &ssig, source, pending);
        pending = pending2;
        proof {
            assert(rows_load_post(*loader, cache_len0, source@));
        }
        let sidx = match r2 {
            Ok(i) => i,
            Err(e) => {
                let _ = pending.pop();
                proof {
                    assert(pending@ =~= pending0);
                }
                return (Err(e), pending);
            },
        };
        if loader.get_class(sidx).access_flags & ACC_INTERFACE != 0 {
            let e = Error::IncompatibleClassChange(name.clone());
            let _ = pending.pop();
            proof {
                assert(pending@ =~= pending0);
            }
            return (Err(e), pending);
        }
        proof {
            assert(crate::runtime::sp_class_sig_at(
                cfv.constant_pool,
                cfv.super_class as int,
            ) == Ok::<sig::SpecClass, PoolError>(sig::view_class(ssig)));
            assert(sp_cache_lookup(loader.s_cache(), sig::view_class(ssig)) == Some(
                sidx as int,
            ));
        }
        Option::Some(sidx)
    };
    let ghost loader_after_super = *loader;
    let ni = cf.interfaces.len();
    let mut t: usize = 0;
    while t < ni
        invariant
            t <= ni,
            loader.wf(),
            pending@ == pending1,
            extends_loaded(loader_after_super.s_loaded(), loader.s_loaded()),
            extends_cache(loader_after_super.s_cache(), loader.s_cache()),
            forall|hv2: sig::SpecClass|
                sp_pending_has(pending@, hv2) && !sp_cache_has(
                    loader_after_super.s_cache(),
                    hv2,
                ) ==> !sp_cache_has(loader.s_cache(), hv2),
            superclass_idx matches Some(s) ==> s < loader.s_loaded().len(),
            rows_load_post(*loader, cache_len0, source@),
            cf.super_class != 0 ==> (superclass_idx matches Some(s) && sp_cache_lookup(
                loader.s_cache(),
                crate::runtime::sp_class_sig_at(
                    cfv.constant_pool,
                    cfv.super_class as int,
                )->Ok_0,
            ) == Some(s as int) && crate::runtime::sp_class_sig_at(
                cfv.constant_pool,
                cfv.super_class as int,
            ) is Ok),
        decreases ni - t,
    {
        let ghost loader_at_iface = *loader;
        let iidx = cf.interfaces[t];
        let isig = match crate::runtime::exec_class_sig_at(&cf.constant_pool, iidx) {
            Ok(c) => c,
            Err(pe) => {
                let _ = pending.pop();
                proof {
                    assert(pending@ =~= pending0);
                }
                return (Err(Error::RuntimePool(pe)), pending);
            },
        };
        proof {
            source_names(source@).lemma_set_insert_diff_decreases(
                pending_names(pending0),
                name@,
            );
        }
        let (r2, pending2) = load_class_rec(loader, &isig, source, pending);
        pending = pending2;
        proof {
            lemma_rows_post_stable(loader_at_iface, *loader, cache_len0, source@);
            assert(rows_load_post(*loader, cache_len0, source@));
            if cf.super_class != 0 {
                match superclass_idx {
                    Option::Some(s) => {
                        lemma_cache_lookup_stable(
                            loader_at_iface.s_cache(),
                            loader.s_cache(),
                            crate::runtime::sp_class_sig_at(
                                cfv.constant_pool,
                                cfv.super_class as int,
                            )->Ok_0,
                            s as int,
                        );
                    },
                    Option::None => {},
                }
            }
        }
        let iresolved = match r2 {
            Ok(i) => i,
            Err(e) => {
                let _ = pending.pop();
                proof {
                    assert(pending@ =~= pending0);
                }
                return (Err(e), pending);
            },
        };
        if loader.get_class(iresolved).access_flags & ACC_INTERFACE == 0 {
            let e = Error::IncompatibleClassChange(name.clone());
            let _ = pending.pop();
            proof {
                assert(pending@ =~= pending0);
            }
            return (Err(e), pending);
        }
        t = t + 1;
    }
    let rcp = match RuntimeConstantPool::new(&cf.constant_pool) {
        Ok(r) => r,
        Err(pe) => {
            let _ = pending.pop();
            proof {
                assert(pending@ =~= pending0);
            }
            return (Err(Error::RuntimePool(pe)), pending);
        },
    };
    let cls = match Class::new(
        symref::Class { sig: sig::clone_class(handle) },
        superclass_idx,
        rcp,
        cf,
    ) {
        Ok(c) => c,
        Err(pe) => {
            let _ = pending.pop();
            proof {
                assert(pending@ =~= pending0);
            }
            return (Err(Error::RuntimePool(pe)), pending);
        },
    };
    let key = sig::clone_class(handle);
    let ghost keyv = key;
    let idx = loader.loaded.len();
    let ghost cache_before = loader.s_cache();
    let ghost loader_before_push = *loader;
    proof {
        assert(!sp_cache_has(cache_before, hv));
        lemma_cache_not_has(cache_before, hv);
    }
    loader.loaded.push(cls);
    loader.classes.push((key, idx));
    proof {
        assert(loader.s_cache() == cache_before.push((keyv, idx)));
        lemma_cache_lookup_push(cache_before, keyv, idx, hv);
        assert forall|hv2: sig::SpecClass|
            sp_pending_has(pending0, hv2) && !sp_cache_has(
                old(loader).s_cache(),
                hv2,
            ) implies !sp_cache_has(loader.s_cache(), hv2) by {
            assert(sp_pending_has(pending1, hv2));
            assert(!sp_cache_has(cache_before, hv2));
            lemma_cache_lookup_push(cache_before, keyv, idx, hv2);
        }
        // the freshly cached class is exactly the parse of its bytes
        match superclass_idx {
            Option::Some(s) => {
                lemma_cache_lookup_stable(
                    cache_before,
                    loader.s_cache(),
                    crate::runtime::sp_class_sig_at(
                        cfv.constant_pool,
                        cfv.super_class as int,
                    )->Ok_0,
                    s as int,
                );
            },
            Option::None => {},
        }
        assert(scalar_load_post(*loader, idx as int, name@, source@));
        lemma_rows_post_stable(loader_before_push, *loader, cache_len0, source@);
        assert forall|k: int|
            cache_len0 <= k < loader.s_cache().len() implies (match sig::view_class(
            (#[trigger] loader.s_cache()[k]).0,
        ) {
            sig::SpecClass::Scalar(n2) => scalar_load_post(
                *loader,
                loader.s_cache()[k].1 as int,
                n2,
                source@,
            ),
            sig::SpecClass::Array(t2) => array_load_post(
                *loader,
                loader.s_cache()[k].1 as int,
                *t2,
            ),
        }) by {
            if k < cache_before.len() {
                assert(rows_load_post_upto(
                    *loader,
                    cache_len0,
                    cache_before.len() as int,
                    source@,
                ));
            } else {
                assert(loader.s_cache()[k] == (keyv, idx));
                assert(sig::view_class(keyv) == sig::SpecClass::Scalar(name@));
            }
        }
        assert(rows_load_post(*loader, cache_len0, source@));
    }
    let _ = pending.pop();
    proof {
        assert(pending@ =~= pending0);
    }
    (Ok(idx), pending)
}

/// A successful cache lookup names a loaded class whose self-reference
/// matches the looked-up handle.
pub proof fn lemma_cache_lookup_valid(
    cache: Seq<(sig::Class, usize)>,
    loaded: Seq<Class>,
    h: sig::SpecClass,
    i: int,
)
    requires
        sp_cache_lookup(cache, h) == Some(i),
        forall|k: int| 0 <= k < cache.len() ==> (#[trigger] cache[k]).1 < loaded.len(),
        forall|k: int|
            0 <= k < cache.len() ==> symref::view_class_ref(
                loaded[(#[trigger] cache[k]).1 as int].symref,
            ).sig == sig::view_class(cache[k].0),
    ensures
        0 <= i < loaded.len(),
        symref::view_class_ref(loaded[i].symref).sig == h,
    decreases cache.len(),
{
    if cache.len() > 0 {
        if sig::view_class(cache[0].0) == h {
            assert(cache[0].1 < loaded.len());
        } else {
            lemma_cache_lookup_valid(cache.drop_first(), loaded, h, i);
            assert forall|k: int| 0 <= k < cache.drop_first().len() implies (#[trigger] cache
                .drop_first()[k]).1 < loaded.len() by {
                assert(cache.drop_first()[k] == cache[k + 1]);
            }
        }
    }
}

/// The slot of a runtime pool at one-based `index`, or `None` when the
/// index is zero or out of range.
pub open spec fn rcp_slot(rcp: Seq<Option<SpecRcpEntry>>, index: int) -> Option<SpecRcpEntry> {
    if 1 <= index && index <= rcp.len() {
        rcp[index - 1]
    } else {
        None
    }
}

/// The raw bytes of the string value backing a deferred string literal,
/// or `None` when the slot is absent or not a string value.
pub open spec fn backing_string_bytes(rcp: Seq<Option<SpecRcpEntry>>, si: int) -> Option<Seq<u8>> {
    match rcp_slot(rcp, si) {
        Some(SpecRcpEntry::StringValue(b)) => Some(b),
        _ => None,
    }
}

/// The signature of the array-of-char class a string literal materializes
/// through.
pub open spec fn char_array_sig() -> sig::SpecClass {
    sig::SpecClass::Array(Box::new(sig::SpecType::Char))
}

/// The signature of the platform's scalar string class.
pub open spec fn string_class_sig() -> sig::SpecClass {
    sig::SpecClass::Scalar("java/lang/String"@)
}

impl RuntimeConstantPool {
    /// Resolves the loadable literal at one-based `index` into a value. A
    /// numeric literal is already resolved and is returned as it stands. A
    /// deferred string literal first resolves the array-of-char class and
    /// the platform's scalar string class through the resolution engine —
    /// either of which can fail with any of its error kinds — and then
    /// materializes the backing modified-UTF-8 text as UTF-16 code units.
    pub fn resolve_literal(
        &self,
        index: u16,
        class_loader: &mut ClassLoader,
        source: &Vec<(String, Vec<u8>)>,
    ) -> (r: Result<Value, Error>)
        requires
            old(class_loader).wf(),
        ensures
            final(class_loader).wf(),
            extends_loaded(old(class_loader).s_loaded(), final(class_loader).s_loaded()),
            extends_cache(old(class_loader).s_cache(), final(class_loader).s_cache()),
            match rcp_slot(self@, index as int) {
                Some(SpecRcpEntry::ResolvedLiteral(sv)) => (match r {
                    Ok(v) => view_value(v) == sv,
                    Err(_) => false,
                }) && *final(class_loader) == *old(class_loader),
                Some(SpecRcpEntry::UnresolvedString(si)) => {
                    // a successful resolution returns exactly the decoded
                    // UTF-16 units and leaves both classes resolved
                    &&& (r matches Ok(v) ==> (match backing_string_bytes(self@, si as int) {
                        Some(bytes) => crate::mutf8::decode_units_from(bytes, 0) is Ok
                            && view_value(v) == SpecValue::StringLiteral(
                            crate::mutf8::decode_units_from(bytes, 0)->Ok_0,
                        ),
                        None => false,
                    }) && sp_cache_has(final(class_loader).s_cache(), char_array_sig())
                        && sp_cache_has(final(class_loader).s_cache(), string_class_sig()))
                    // success is owed once both classes already stand in the
                    // cache and the backing text decodes
                    &&& ((sp_cache_has(old(class_loader).s_cache(), char_array_sig())
                        && sp_cache_has(old(class_loader).s_cache(), string_class_sig()) && (
                    match backing_string_bytes(self@, si as int) {
                        Some(bytes) => crate::mutf8::decode_units_from(bytes, 0) is Ok,
                        None => false,
                    })) ==> r is Ok)
                    // with the char-array class resolved, a missing backing
                    // string yields its exact error
                    &&& ((sp_cache_has(final(class_loader).s_cache(), char_array_sig())
                        && backing_string_bytes(self@, si as int) is None) ==> r == Err::<
                        Value,
                        Error,
                    >(Error::RuntimePool(PoolError::NotStringValue { index: si as usize })))
                    // and an undecodable one yields its exact decode error;
                    // otherwise only the scalar string class's resolution can
                    // still fail, and a failure leaves it uncached
                    &&& (match backing_string_bytes(self@, si as int) {
                        Some(bytes) => match crate::mutf8::decode_units_from(bytes, 0) {
                            Err(de) => sp_cache_has(
                                final(class_loader).s_cache(),
                                char_array_sig(),
                            ) ==> r == Err::<Value, Error>(
                                Error::RuntimePool(
                                    PoolError::BadString { index: si as usize, cause: de },
                                ),
                            ),
                            Ok(_) => (r is Err && sp_cache_has(
                                final(class_loader).s_cache(),
                                char_array_sig(),
                            )) ==> !sp_cache_has(
                                final(class_loader).s_cache(),
                                string_class_sig(),
                            ),
                        },
                        None => true,
                    })
                },
                _ => r == Err::<Value, Error>(
                    Error::RuntimePool(PoolError::NotLiteral { index: index as usize }),
                ) && *final(class_loader) == *old(class_loader),
            },
    {
        match self.get(index) {
            Option::Some(RuntimeConstantPoolEntry::ResolvedLiteral(v)) => Ok(
                crate::runtime::clone_value(v),
            ),
            Option::Some(RuntimeConstantPoolEntry::UnresolvedString(si)) => {
                let si = *si;
                let array_handle = sig::Class::Array(Box::new(sig::Type::Char));
                let array_idx = match class_loader.load_class(&array_handle, source) {
                    Ok(i) => i,
                    Err(e) => {
                        return Err(e);
                    },
                };
                let units = match self.get(si) {
                    Option::Some(RuntimeConstantPoolEntry::StringValue(s)) => match s.to_utf16() {
                        Ok(u) => u,
                        Err(de) => {
                            return Err(
                                Error::RuntimePool(
                                    PoolError::BadString { index: si as usize, cause: de },
                                ),
                            );
                        },
                    },
                    _ => {
                        return Err(
                            Error::RuntimePool(PoolError::NotStringValue { index: si as usize }),
                        );
                    },
                };
                let string_handle = sig::Class::Scalar("java/lang/String".to_owned());
                let ghost mid_loader = *class_loader;
                let string_idx = match class_loader.load_class(&string_handle, source) {
                    Ok(i) => i,
                    Err(e) => {
                        return Err(e);
                    },
                };
                proof {
                    assert(sig::view_class(string_handle) == sig::SpecClass::Scalar(
                        "java/lang/String"@,
                    ));
                    assert(sp_cache_has(
                        mid_loader.s_cache(),
                        sig::SpecClass::Array(Box::new(sig::SpecType::Char)),
                    ));
                    lemma_cache_grows(
                        mid_loader.s_cache(),
                        class_loader.s_cache(),
                        sig::SpecClass::Array(Box::new(sig::SpecType::Char)),
                    );
                }
                Ok(Value::StringLiteral(units))
            },
            _ => Err(Error::RuntimePool(PoolError::NotLiteral { index: index as usize })),
        }
    }
}

/// A cache never forgets: growing the loader keeps every handle cached.
pub proof fn lemma_cache_grows(
    before: Seq<(sig::Class, usize)>,
    after: Seq<(sig::Class, usize)>,
    h: sig::SpecClass,
)
    requires
        sp_cache_has(before, h),
        extends_cache(before, after),
    ensures
        sp_cache_has(after, h),
    decreases before.len(),
{
    if before.len() > 0 {
        if sig::view_class(before[0].0) == h {
            assert(after[0] == before[0]);
            assert(sp_cache_lookup(after, h) == Some(after[0].1 as int));
        } else {
            assert forall|i: int| 0 <= i < before.drop_first().len() implies before.drop_first()[i]
                == #[trigger] after.drop_first()[i] by {
                assert(before.drop_first()[i] == before[i + 1]);
                assert(after.drop_first()[i] == after[i + 1]);
            }
            lemma_cache_grows(before.drop_first(), after.drop_first(), h);
            assert(after[0] == before[0]);
        }
    }
}

} // verus!
