//! The attribute sub-format of the class-file format: a tagged variant keyed
//! by the decoded name of a constant-pool `Utf8` entry, with an opaque
//! raw-bytes variant for unrecognized (vendor or newer-format) names.
//!
//! Beside each executable type stands its mathematical model (`Spec...`),
//! related by the `view_...` functions; the parser's contracts speak of the
//! models.

use vstd::prelude::*;

verus! {

/// One entry of a `Code` attribute's exception table; the handler covers the
/// byte range `[start_pc, end_pc)`.
#[derive(Debug, Clone, PartialEq, Eq, Structural)]
pub struct ExceptionTableEntry {
    pub start_pc: u16,
    pub end_pc: u16,
    pub handler_pc: u16,
    /// Zero, or an index of a `Class` constant naming the caught class.
    pub catch_type: u16,
}

#[derive(Debug, Clone, PartialEq, Eq, Structural)]
pub enum VerificationTypeInfo {
    Top,
    Integer,
    Float,
    Long,
    Double,
    Null,
    UninitializedThis,
    Object { class_index: u16 },
    Uninitialized { offset: u16 },
}

#[derive(Debug, Clone, PartialEq, Eq)]
pub enum StackMapFrame {
    SameFrame { offset_delta: u8 },
    SameLocals1StackItemFrame { offset_delta: u8, stack_item: VerificationTypeInfo },
    SameLocals1StackItemFrameExtended { offset_delta: u16, stack_item: VerificationTypeInfo },
    ChopFrame { offset_delta: u16, num_chopped: u8 },
    SameFrameExtended { offset_delta: u16 },
    AppendFrame { offset_delta: u16, locals: Vec<VerificationTypeInfo> },
    FullFrame {
        offset_delta: u16,
        locals: Vec<VerificationTypeInfo>,
        stack: Vec<VerificationTypeInfo>,
    },
}

pub enum SpecStackMapFrame {
    SameFrame { offset_delta: u8 },
    SameLocals1StackItemFrame { offset_delta: u8, stack_item: VerificationTypeInfo },
    SameLocals1StackItemFrameExtended { offset_delta: u16, stack_item: VerificationTypeInfo },
    ChopFrame { offset_delta: u16, num_chopped: u8 },
    SameFrameExtended { offset_delta: u16 },
    AppendFrame { offset_delta: u16, locals: Seq<VerificationTypeInfo> },
    FullFrame {
        offset_delta: u16,
        locals: Seq<VerificationTypeInfo>,
        stack: Seq<VerificationTypeInfo>,
    },
}

pub open spec fn view_frame(f: StackMapFrame) -> SpecStackMapFrame {
    match f {
        StackMapFrame::SameFrame { offset_delta } => SpecStackMapFrame::SameFrame { offset_delta },
        StackMapFrame::SameLocals1StackItemFrame { offset_delta, stack_item } =>
            SpecStackMapFrame::SameLocals1StackItemFrame { offset_delta, stack_item },
        StackMapFrame::SameLocals1StackItemFrameExtended { offset_delta, stack_item } =>
            SpecStackMapFrame::SameLocals1StackItemFrameExtended { offset_delta, stack_item },
        StackMapFrame::ChopFrame { offset_delta, num_chopped } => SpecStackMapFrame::ChopFrame {
            offset_delta,
            num_chopped,
        },
        StackMapFrame::SameFrameExtended { offset_delta } => SpecStackMapFrame::SameFrameExtended {
            offset_delta,
        },
        StackMapFrame::AppendFrame { offset_delta, locals } => SpecStackMapFrame::AppendFrame {
            offset_delta,
            locals: locals@,
        },
        StackMapFrame::FullFrame { offset_delta, locals, stack } => SpecStackMapFrame::FullFrame {
            offset_delta,
            locals: locals@,
            stack: stack@,
        },
    }
}

pub open spec fn view_frame_seq(s: Seq<StackMapFrame>) -> Seq<SpecStackMapFrame> {
    Seq::new(s.len(), |i: int| view_frame(s[i]))
}

#[derive(Debug, Clone)]
pub struct BootstrapMethod {
    /// An index of a `MethodHandle` constant.
    pub bootstrap_method_ref: u16,
    /// Indices of loadable constants handed to the bootstrap method.
    pub bootstrap_arguments: Vec<u16>,
}

pub struct SpecBootstrapMethod {
    pub bootstrap_method_ref: u16,
    pub bootstrap_arguments: Seq<u16>,
}

pub open spec fn view_bootstrap_method(b: BootstrapMethod) -> SpecBootstrapMethod {
    SpecBootstrapMethod {
        bootstrap_method_ref: b.bootstrap_method_ref,
        bootstrap_arguments: b.bootstrap_arguments@,
    }
}

#[derive(Debug, Clone, PartialEq, Eq, Structural)]
pub struct InnerClass {
    pub inner_class_info_index: u16,
    pub outer_class_info_index: u16,
    pub inner_name_index: u16,
    pub inner_class_access_flags: u16,
}

#[derive(Debug, Clone, PartialEq, Eq, Structural)]
pub struct Parameter {
    pub name_index: u16,
    pub access_flags: u16,
}

#[derive(Debug, Clone, PartialEq, Eq, Structural)]
pub struct LineNumberInfo {
    pub start_pc: u16,
    pub line_number: u16,
}

#[derive(Debug, Clone, PartialEq, Eq, Structural)]
pub struct LocalVariableInfo {
    pub start_pc: u16,
    pub length: u16,
    pub name_index: u16,
    pub descriptor_index: u16,
    pub index: u16,
}

#[derive(Debug, Clone, PartialEq, Eq, Structural)]
pub struct LocalVariableTypeInfo {
    pub start_pc: u16,
    pub length: u16,
    pub name_index: u16,
    pub signature_index: u16,
    pub index: u16,
}

#[derive(Debug, Clone, PartialEq, Eq, Structural)]
pub struct LocalVariableTargetInfo {
    pub start_pc: u16,
    pub length: u16,
    pub index: u16,
}

#[derive(Debug, Clone, PartialEq, Eq, Structural)]
pub struct TypePathPart {
    pub type_path_kind: u8,
    pub type_argument_index: u8,
}

#[derive(Debug, Clone)]
pub struct TypePath {
    pub path: Vec<TypePathPart>,
}

pub struct SpecTypePath {
    pub path: Seq<TypePathPart>,
}

pub open spec fn view_type_path(t: TypePath) -> SpecTypePath {
    SpecTypePath { path: t.path@ }
}

#[derive(Debug, Clone)]
pub enum TargetInfo {
    TypeParameter { type_parameter_index: u8 },
    Supertype { supertype_index: u16 },
    TypeParameterBound { type_parameter_index: u8, bound_index: u8 },
    Empty,
    FormalParameter { formal_parameter_index: u8 },
    Throws { throws_type_index: u16 },
    LocalVariable { table: Vec<LocalVariableTargetInfo> },
    Catch { exception_table_index: u16 },
    Offset { offset: u16 },
    TypeArgument { offset: u16, type_argument_index: u8 },
}

pub enum SpecTargetInfo {
    TypeParameter { type_parameter_index: u8 },
    Supertype { supertype_index: u16 },
    TypeParameterBound { type_parameter_index: u8, bound_index: u8 },
    Empty,
    FormalParameter { formal_parameter_index: u8 },
    Throws { throws_type_index: u16 },
    LocalVariable { table: Seq<LocalVariableTargetInfo> },
    Catch { exception_table_index: u16 },
    Offset { offset: u16 },
    TypeArgument { offset: u16, type_argument_index: u8 },
}

pub open spec fn view_target_info(t: TargetInfo) -> SpecTargetInfo {
    match t {
        TargetInfo::TypeParameter { type_parameter_index } => SpecTargetInfo::TypeParameter {
            type_parameter_index,
        },
        TargetInfo::Supertype { supertype_index } => SpecTargetInfo::Supertype { supertype_index },
        TargetInfo::TypeParameterBound { type_parameter_index, bound_index } =>
            SpecTargetInfo::TypeParameterBound { type_parameter_index, bound_index },
        TargetInfo::Empty => SpecTargetInfo::Empty,
        TargetInfo::FormalParameter { formal_parameter_index } => SpecTargetInfo::FormalParameter {
            formal_parameter_index,
        },
        TargetInfo::Throws { throws_type_index } => SpecTargetInfo::Throws { throws_type_index },
        TargetInfo::LocalVariable { table } => SpecTargetInfo::LocalVariable { table: table@ },
        TargetInfo::Catch { exception_table_index } => SpecTargetInfo::Catch {
            exception_table_index,
        },
        TargetInfo::Offset { offset } => SpecTargetInfo::Offset { offset },
        TargetInfo::TypeArgument { offset, type_argument_index } => SpecTargetInfo::TypeArgument {
            offset,
            type_argument_index,
        },
    }
}

#[derive(Debug)]
pub enum ElementValue {
    Byte { const_value_index: u16 },
    Char { const_value_index: u16 },
    Double { const_value_index: u16 },
    Float { const_value_index: u16 },
    Int { const_value_index: u16 },
    Long { const_value_index: u16 },
    Short { const_value_index: u16 },
    Boolean { const_value_index: u16 },
    String { const_value_index: u16 },
    Enum { type_name_index: u16, const_name_index: u16 },
    Class { class_info_index: u16 },
    Annotation { annotation_value: Annotation },
    Array { values: Vec<ElementValue> },
}

#[derive(Debug)]
pub struct ElementValuePair {
    pub element_name_index: u16,
    pub value: ElementValue,
}

#[derive(Debug)]
pub struct Annotation {
    pub type_index: u16,
    pub element_value_pairs: Vec<ElementValuePair>,
}

#[derive(Debug)]
pub struct TypeAnnotation {
    pub target_info: TargetInfo,
    pub target_path: TypePath,
    pub type_index: u16,
    pub element_value_pairs: Vec<ElementValuePair>,
}

pub enum SpecElementValue {
    Byte { const_value_index: u16 },
    Char { const_value_index: u16 },
    Double { const_value_index: u16 },
    Float { const_value_index: u16 },
    Int { const_value_index: u16 },
    Long { const_value_index: u16 },
    Short { const_value_index: u16 },
    Boolean { const_value_index: u16 },
    String { const_value_index: u16 },
    Enum { type_name_index: u16, const_name_index: u16 },
    Class { class_info_index: u16 },
    Annotation { annotation_value: SpecAnnotation },
    Array { values: Seq<SpecElementValue> },
}

pub struct SpecElementValuePair {
    pub element_name_index: u16,
    pub value: SpecElementValue,
}

pub struct SpecAnnotation {
    pub type_index: u16,
    pub element_value_pairs: Seq<SpecElementValuePair>,
}

pub struct SpecTypeAnnotation {
    pub target_info: SpecTargetInfo,
    pub target_path: SpecTypePath,
    pub type_index: u16,
    pub element_value_pairs: Seq<SpecElementValuePair>,
}

pub open spec fn view_element_value(v: ElementValue) -> SpecElementValue
    decreases v,
{
    match v {
        ElementValue::Byte { const_value_index } => SpecElementValue::Byte { const_value_index },
        ElementValue::Char { const_value_index } => SpecElementValue::Char { const_value_index },
        ElementValue::Double { const_value_index } => SpecElementValue::Double {
            const_value_index,
        },
        ElementValue::Float { const_value_index } => SpecElementValue::Float { const_value_index },
        ElementValue::Int { const_value_index } => SpecElementValue::Int { const_value_index },
        ElementValue::Long { const_value_index } => SpecElementValue::Long { const_value_index },
        ElementValue::Short { const_value_index } => SpecElementValue::Short { const_value_index },
        ElementValue::Boolean { const_value_index } => SpecElementValue::Boolean {
            const_value_index,
        },
        ElementValue::String { const_value_index } => SpecElementValue::String {
            const_value_index,
        },
        ElementValue::Enum { type_name_index, const_name_index } => SpecElementValue::Enum {
            type_name_index,
            const_name_index,
        },
        ElementValue::Class { class_info_index } => SpecElementValue::Class { class_info_index },
        ElementValue::Annotation { annotation_value } => SpecElementValue::Annotation {
            annotation_value: view_annotation(annotation_value),
        },
        ElementValue::Array { values } => SpecElementValue::Array {
            values: view_element_value_seq(values@),
        },
    }
}

pub open spec fn view_element_value_seq(s: Seq<ElementValue>) -> Seq<SpecElementValue>
    decreases s,
{
    if s.len() == 0 {
        Seq::empty()
    } else {
        view_element_value_seq(s.drop_last()).push(view_element_value(s.last()))
    }
}

pub open spec fn view_element_value_pair(p: ElementValuePair) -> SpecElementValuePair
    decreases p,
{
    SpecElementValuePair {
        element_name_index: p.element_name_index,
        value: view_element_value(p.value),
    }
}

pub open spec fn view_pair_seq(s: Seq<ElementValuePair>) -> Seq<SpecElementValuePair>
    decreases s,
{
    if s.len() == 0 {
        Seq::empty()
    } else {
        view_pair_seq(s.drop_last()).push(view_element_value_pair(s.last()))
    }
}

pub open spec fn view_annotation(a: Annotation) -> SpecAnnotation
    decreases a,
{
    SpecAnnotation {
        type_index: a.type_index,
        element_value_pairs: view_pair_seq(a.element_value_pairs@),
    }
}

pub open spec fn view_annotation_seq(s: Seq<Annotation>) -> Seq<SpecAnnotation>
    decreases s,
{
    if s.len() == 0 {
        Seq::empty()
    } else {
        view_annotation_seq(s.drop_last()).push(view_annotation(s.last()))
    }
}

pub open spec fn view_annotation_seq_seq(s: Seq<Vec<Annotation>>) -> Seq<Seq<SpecAnnotation>>
    decreases s,
{
    if s.len() == 0 {
        Seq::empty()
    } else {
        view_annotation_seq_seq(s.drop_last()).push(view_annotation_seq(s.last()@))
    }
}

pub open spec fn view_type_annotation(t: TypeAnnotation) -> SpecTypeAnnotation {
    SpecTypeAnnotation {
        target_info: view_target_info(t.target_info),
        target_path: view_type_path(t.target_path),
        type_index: t.type_index,
        element_value_pairs: view_pair_seq(t.element_value_pairs@),
    }
}

pub open spec fn view_type_annotation_seq(s: Seq<TypeAnnotation>) -> Seq<SpecTypeAnnotation> {
    Seq::new(s.len(), |i: int| view_type_annotation(s[i]))
}

/// A class-file attribute. Unknown attribute names parse to the raw-bytes
/// `Unknown` variant: the format allows forward-compatible extensions, and
/// an unrecognized name is never an error.
#[derive(Debug)]
pub enum AttributeInfo {
    ConstantValue { constant_value_index: u16 },
    Code {
        max_stack: u16,
        max_locals: u16,
        code: Vec<u8>,
        exception_table: Vec<ExceptionTableEntry>,
        attributes: Vec<AttributeInfo>,
    },
    StackMapTable { entries: Vec<StackMapFrame> },
    Exceptions { exception_index_table: Vec<u16> },
    BootstrapMethods { bootstrap_methods: Vec<BootstrapMethod> },
    InnerClasses { classes: Vec<InnerClass> },
    EnclosingMethod { class_index: u16, method_index: u16 },
    Synthetic,
    Signature { signature_index: u16 },
    RuntimeVisibleAnnotations { annotations: Vec<Annotation> },
    RuntimeInvisibleAnnotations { annotations: Vec<Annotation> },
    RuntimeVisibleParameterAnnotations { parameter_annotations: Vec<Vec<Annotation>> },
    RuntimeInvisibleParameterAnnotations { parameter_annotations: Vec<Vec<Annotation>> },
    RuntimeVisibleTypeAnnotations { annotations: Vec<TypeAnnotation> },
    RuntimeInvisibleTypeAnnotations { annotations: Vec<TypeAnnotation> },
    AnnotationDefault { default_value: ElementValue },
    MethodParameters { parameters: Vec<Parameter> },
    SourceFile { sourcefile_index: u16 },
    SourceDebugExtension { debug_extension: Vec<u8> },
    LineNumberTable { line_number_table: Vec<LineNumberInfo> },
    LocalVariableTable { local_variable_table: Vec<LocalVariableInfo> },
    LocalVariableTypeTable { local_variable_type_table: Vec<LocalVariableTypeInfo> },
    Deprecated,
    Unknown { attribute_name_index: u16, info: Vec<u8> },
}

pub enum SpecAttributeInfo {
    ConstantValue { constant_value_index: u16 },
    Code {
        max_stack: u16,
        max_locals: u16,
        code: Seq<u8>,
        exception_table: Seq<ExceptionTableEntry>,
        attributes: Seq<SpecAttributeInfo>,
    },
    StackMapTable { entries: Seq<SpecStackMapFrame> },
    Exceptions { exception_index_table: Seq<u16> },
    BootstrapMethods { bootstrap_methods: Seq<SpecBootstrapMethod> },
    InnerClasses { classes: Seq<InnerClass> },
    EnclosingMethod { class_index: u16, method_index: u16 },
    Synthetic,
    Signature { signature_index: u16 },
    RuntimeVisibleAnnotations { annotations: Seq<SpecAnnotation> },
    RuntimeInvisibleAnnotations { annotations: Seq<SpecAnnotation> },
    RuntimeVisibleParameterAnnotations { parameter_annotations: Seq<Seq<SpecAnnotation>> },
    RuntimeInvisibleParameterAnnotations { parameter_annotations: Seq<Seq<SpecAnnotation>> },
    RuntimeVisibleTypeAnnotations { annotations: Seq<SpecTypeAnnotation> },
    RuntimeInvisibleTypeAnnotations { annotations: Seq<SpecTypeAnnotation> },
    AnnotationDefault { default_value: SpecElementValue },
    MethodParameters { parameters: Seq<Parameter> },
    SourceFile { sourcefile_index: u16 },
    SourceDebugExtension { debug_extension: Seq<u8> },
    LineNumberTable { line_number_table: Seq<LineNumberInfo> },
    LocalVariableTable { local_variable_table: Seq<LocalVariableInfo> },
    LocalVariableTypeTable { local_variable_type_table: Seq<LocalVariableTypeInfo> },
    Deprecated,
    Unknown { attribute_name_index: u16, info: Seq<u8> },
}

pub open spec fn view_bootstrap_method_seq(s: Seq<BootstrapMethod>) -> Seq<SpecBootstrapMethod> {
    Seq::new(s.len(), |i: int| view_bootstrap_method(s[i]))
}

pub open spec fn view_attr(a: AttributeInfo) -> SpecAttributeInfo
    decreases a,
{
    match a {
        AttributeInfo::ConstantValue { constant_value_index } => SpecAttributeInfo::ConstantValue {
            constant_value_index,
        },
        AttributeInfo::Code { max_stack, max_locals, code, exception_table, attributes } =>
            SpecAttributeInfo::Code {
            max_stack,
            max_locals,
            code: code@,
            exception_table: exception_table@,
            attributes: view_attr_seq(attributes@),
        },
        AttributeInfo::StackMapTable { entries } => SpecAttributeInfo::StackMapTable {
            entries: view_frame_seq(entries@),
        },
        AttributeInfo::Exceptions { exception_index_table } => SpecAttributeInfo::Exceptions {
            exception_index_table: exception_index_table@,
        },
        AttributeInfo::BootstrapMethods { bootstrap_methods } =>
            SpecAttributeInfo::BootstrapMethods {
            bootstrap_methods: view_bootstrap_method_seq(bootstrap_methods@),
        },
        AttributeInfo::InnerClasses { classes } => SpecAttributeInfo::InnerClasses {
            classes: classes@,
        },
        AttributeInfo::EnclosingMethod { class_index, method_index } =>
            SpecAttributeInfo::EnclosingMethod { class_index, method_index },
        AttributeInfo::Synthetic => SpecAttributeInfo::Synthetic,
        AttributeInfo::Signature { signature_index } => SpecAttributeInfo::Signature {
            signature_index,
        },
        AttributeInfo::RuntimeVisibleAnnotations { annotations } =>
            SpecAttributeInfo::RuntimeVisibleAnnotations {
            annotations: view_annotation_seq(annotations@),
        },
        AttributeInfo::RuntimeInvisibleAnnotations { annotations } =>
            SpecAttributeInfo::RuntimeInvisibleAnnotations {
            annotations: view_annotation_seq(annotations@),
        },
        AttributeInfo::RuntimeVisibleParameterAnnotations { parameter_annotations } =>
            SpecAttributeInfo::RuntimeVisibleParameterAnnotations {
            parameter_annotations: view_annotation_seq_seq(parameter_annotations@),
        },
        AttributeInfo::RuntimeInvisibleParameterAnnotations { parameter_annotations } =>
            SpecAttributeInfo::RuntimeInvisibleParameterAnnotations {
            parameter_annotations: view_annotation_seq_seq(parameter_annotations@),
        },
        AttributeInfo::RuntimeVisibleTypeAnnotations { annotations } =>
            SpecAttributeInfo::RuntimeVisibleTypeAnnotations {
            annotations: view_type_annotation_seq(annotations@),
        },
        AttributeInfo::RuntimeInvisibleTypeAnnotations { annotations } =>
            SpecAttributeInfo::RuntimeInvisibleTypeAnnotations {
            annotations: view_type_annotation_seq(annotations@),
        },
        AttributeInfo::AnnotationDefault { default_value } => SpecAttributeInfo::AnnotationDefault {
            default_value: view_element_value(default_value),
        },
        AttributeInfo::MethodParameters { parameters } => SpecAttributeInfo::MethodParameters {
            parameters: parameters@,
        },
        AttributeInfo::SourceFile { sourcefile_index } => SpecAttributeInfo::SourceFile {
            sourcefile_index,
        },
        AttributeInfo::SourceDebugExtension { debug_extension } =>
            SpecAttributeInfo::SourceDebugExtension { debug_extension: debug_extension@ },
        AttributeInfo::LineNumberTable { line_number_table } => SpecAttributeInfo::LineNumberTable {
            line_number_table: line_number_table@,
        },
        AttributeInfo::LocalVariableTable { local_variable_table } =>
            SpecAttributeInfo::LocalVariableTable { local_variable_table: local_variable_table@ },
        AttributeInfo::LocalVariableTypeTable { local_variable_type_table } =>
            SpecAttributeInfo::LocalVariableTypeTable {
            local_variable_type_table: local_variable_type_table@,
        },
        AttributeInfo::Deprecated => SpecAttributeInfo::Deprecated,
        AttributeInfo::Unknown { attribute_name_index, info } => SpecAttributeInfo::Unknown {
            attribute_name_index,
            info: info@,
        },
    }
}

pub open spec fn view_attr_seq(s: Seq<AttributeInfo>) -> Seq<SpecAttributeInfo>
    decreases s,
{
    if s.len() == 0 {
        Seq::empty()
    } else {
        view_attr_seq(s.drop_last()).push(view_attr(s.last()))
    }
}

/// `view_attr_seq` maps `view_attr` over the sequence element by element.
pub proof fn lemma_view_attr_seq_index(s: Seq<AttributeInfo>, i: int)
    requires
        0 <= i < s.len(),
    ensures
        view_attr_seq(s).len() == s.len(),
        view_attr_seq(s)[i] == view_attr(s[i]),
    decreases s,
{
    lemma_view_attr_seq_len(s);
    if i < s.len() - 1 {
        lemma_view_attr_seq_index(s.drop_last(), i);
    }
}

pub proof fn lemma_view_attr_seq_len(s: Seq<AttributeInfo>)
    ensures
        view_attr_seq(s).len() == s.len(),
    decreases s,
{
    if s.len() > 0 {
        lemma_view_attr_seq_len(s.drop_last());
    }
}

} // verus!
