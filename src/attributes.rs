//! The attributes of classes, fields, methods and code, and the records they hold.
use vstd::prelude::*;
use std::sync::Arc;

verus! {

/// A decoded attribute. Those with a `raw` field also keep the bytes of their
/// body as they stood in the stream.
#[derive(Debug)]
pub enum Type {
    ConstantValue { constant_value_index: u16 },
    Code(Code),
    StackMapTable { entries: Vec<StackMapFrame> },
    Exceptions { exceptions: Vec<u16> },
    InnerClasses { classes: Vec<InnerClass> },
    EnclosingMethod { em: EnclosingMethod },
    Synthetic,
    Signature { signature_index: u16 },
    SourceFile { source_file_index: u16 },
    SourceDebugExtension { debug_extension: Arc<Vec<u8>> },
    LineNumberTable { tables: Vec<LineNumber> },
    LocalVariableTable { tables: Vec<LocalVariable> },
    LocalVariableTypeTable { tables: Vec<LocalVariable> },
    Deprecated,
    RuntimeVisibleAnnotations { raw: Arc<Vec<u8>>, annotations: Vec<AnnotationEntry> },
    RuntimeInvisibleAnnotations { raw: Arc<Vec<u8>>, annotations: Vec<AnnotationEntry> },
    RuntimeVisibleParameterAnnotations { raw: Arc<Vec<u8>>, annotations: Vec<AnnotationEntry> },
    RuntimeInvisibleParameterAnnotations { raw: Arc<Vec<u8>>, annotations: Vec<AnnotationEntry> },
    RuntimeVisibleTypeAnnotations { raw: Arc<Vec<u8>>, annotations: Vec<TypeAnnotation> },
    RuntimeInvisibleTypeAnnotations { raw: Arc<Vec<u8>>, annotations: Vec<TypeAnnotation> },
    AnnotationDefault { raw: Arc<Vec<u8>>, default_value: ElementValueType },
    BootstrapMethods { n: u16, methods: Vec<BootstrapMethod> },
    MethodParameters { parameters: Vec<MethodParameter> },
    Unknown,
}

/// The kind of an attribute, as its name gives it.
#[derive(Clone, Copy, Debug, PartialEq, Eq, Structural)]
pub enum Tag {
    ConstantValue,
    Code,
    StackMapTable,
    Exceptions,
    InnerClasses,
    EnclosingMethod,
    Synthetic,
    Signature,
    SourceFile,
    SourceDebugExtension,
    LineNumberTable,
    LocalVariableTable,
    LocalVariableTypeTable,
    Deprecated,
    RuntimeVisibleAnnotations,
    RuntimeInvisibleAnnotations,
    RuntimeVisibleParameterAnnotations,
    RuntimeInvisibleParameterAnnotations,
    RuntimeVisibleTypeAnnotations,
    RuntimeInvisibleTypeAnnotations,
    AnnotationDefault,
    BootstrapMethods,
    MethodParameters,
    Unknown,
}

/// The name under which each known kind appears in the constant pool: the
/// variant's own name, in ASCII.
pub open spec fn name_of(t: Tag) -> Seq<u8> {
    match t {
        Tag::ConstantValue => seq![67u8, 111, 110, 115, 116, 97, 110, 116, 86, 97, 108, 117, 101],
        Tag::Code => seq![67u8, 111, 100, 101],
        Tag::StackMapTable => seq![83u8, 116, 97, 99, 107, 77, 97, 112, 84, 97, 98, 108, 101],
        Tag::Exceptions => seq![69u8, 120, 99, 101, 112, 116, 105, 111, 110, 115],
        Tag::InnerClasses => seq![73u8, 110, 110, 101, 114, 67, 108, 97, 115, 115, 101, 115],
        Tag::EnclosingMethod => seq![69u8, 110, 99, 108, 111, 115, 105, 110, 103, 77, 101, 116, 104, 111, 100],
        Tag::Synthetic => seq![83u8, 121, 110, 116, 104, 101, 116, 105, 99],
        Tag::Signature => seq![83u8, 105, 103, 110, 97, 116, 117, 114, 101],
        Tag::SourceFile => seq![83u8, 111, 117, 114, 99, 101, 70, 105, 108, 101],
        Tag::SourceDebugExtension => seq![83u8, 111, 117, 114, 99, 101, 68, 101, 98, 117, 103, 69, 120, 116, 101, 110, 115, 105, 111, 110],
        Tag::LineNumberTable => seq![76u8, 105, 110, 101, 78, 117, 109, 98, 101, 114, 84, 97, 98, 108, 101],
        Tag::LocalVariableTable => seq![76u8, 111, 99, 97, 108, 86, 97, 114, 105, 97, 98, 108, 101, 84, 97, 98, 108, 101],
        Tag::LocalVariableTypeTable => seq![76u8, 111, 99, 97, 108, 86, 97, 114, 105, 97, 98, 108, 101, 84, 121, 112, 101, 84, 97, 98, 108, 101],
        Tag::Deprecated => seq![68u8, 101, 112, 114, 101, 99, 97, 116, 101, 100],
        Tag::RuntimeVisibleAnnotations => seq![82u8, 117, 110, 116, 105, 109, 101, 86, 105, 115, 105, 98, 108, 101, 65, 110, 110, 111, 116, 97, 116, 105, 111, 110, 115],
        Tag::RuntimeInvisibleAnnotations => seq![82u8, 117, 110, 116, 105, 109, 101, 73, 110, 118, 105, 115, 105, 98, 108, 101, 65, 110, 110, 111, 116, 97, 116, 105, 111, 110, 115],
        Tag::RuntimeVisibleParameterAnnotations => seq![82u8, 117, 110, 116, 105, 109, 101, 86, 105, 115, 105, 98, 108, 101, 80, 97, 114, 97, 109, 101, 116, 101, 114, 65, 110, 110, 111, 116, 97, 116, 105, 111, 110, 115],
        Tag::RuntimeInvisibleParameterAnnotations => seq![82u8, 117, 110, 116, 105, 109, 101, 73, 110, 118, 105, 115, 105, 98, 108, 101, 80, 97, 114, 97, 109, 101, 116, 101, 114, 65, 110, 110, 111, 116, 97, 116, 105, 111, 110, 115],
        Tag::RuntimeVisibleTypeAnnotations => seq![82u8, 117, 110, 116, 105, 109, 101, 86, 105, 115, 105, 98, 108, 101, 84, 121, 112, 101, 65, 110, 110, 111, 116, 97, 116, 105, 111, 110, 115],
        Tag::RuntimeInvisibleTypeAnnotations => seq![82u8, 117, 110, 116, 105, 109, 101, 73, 110, 118, 105, 115, 105, 98, 108, 101, 84, 121, 112, 101, 65, 110, 110, 111, 116, 97, 116, 105, 111, 110, 115],
        Tag::AnnotationDefault => seq![65u8, 110, 110, 111, 116, 97, 116, 105, 111, 110, 68, 101, 102, 97, 117, 108, 116],
        Tag::BootstrapMethods => seq![66u8, 111, 111, 116, 115, 116, 114, 97, 112, 77, 101, 116, 104, 111, 100, 115],
        Tag::MethodParameters => seq![77u8, 101, 116, 104, 111, 100, 80, 97, 114, 97, 109, 101, 116, 101, 114, 115],
        Tag::Unknown => Seq::empty(),
    }
}

/// The kind that a name selects; `Unknown` for a name that no kind has.
pub open spec fn tag_of_name(s: Seq<u8>) -> Tag {
    if s == name_of(Tag::ConstantValue) {
        Tag::ConstantValue
    }     else if s == name_of(Tag::Code) {
        Tag::Code
    }     else if s == name_of(Tag::StackMapTable) {
        Tag::StackMapTable
    }     else if s == name_of(Tag::Exceptions) {
        Tag::Exceptions
    }     else if s == name_of(Tag::InnerClasses) {
        Tag::InnerClasses
    }     else if s == name_of(Tag::EnclosingMethod) {
        Tag::EnclosingMethod
    }     else if s == name_of(Tag::Synthetic) {
        Tag::Synthetic
    }     else if s == name_of(Tag::Signature) {
        Tag::Signature
    }     else if s == name_of(Tag::SourceFile) {
        Tag::SourceFile
    }     else if s == name_of(Tag::SourceDebugExtension) {
        Tag::SourceDebugExtension
    }     else if s == name_of(Tag::LineNumberTable) {
        Tag::LineNumberTable
    }     else if s == name_of(Tag::LocalVariableTable) {
        Tag::LocalVariableTable
    }     else if s == name_of(Tag::LocalVariableTypeTable) {
        Tag::LocalVariableTypeTable
    }     else if s == name_of(Tag::Deprecated) {
        Tag::Deprecated
    }     else if s == name_of(Tag::RuntimeVisibleAnnotations) {
        Tag::RuntimeVisibleAnnotations
    }     else if s == name_of(Tag::RuntimeInvisibleAnnotations) {
        Tag::RuntimeInvisibleAnnotations
    }     else if s == name_of(Tag::RuntimeVisibleParameterAnnotations) {
        Tag::RuntimeVisibleParameterAnnotations
    }     else if s == name_of(Tag::RuntimeInvisibleParameterAnnotations) {
        Tag::RuntimeInvisibleParameterAnnotations
    }     else if s == name_of(Tag::RuntimeVisibleTypeAnnotations) {
        Tag::RuntimeVisibleTypeAnnotations
    }     else if s == name_of(Tag::RuntimeInvisibleTypeAnnotations) {
        Tag::RuntimeInvisibleTypeAnnotations
    }     else if s == name_of(Tag::AnnotationDefault) {
        Tag::AnnotationDefault
    }     else if s == name_of(Tag::BootstrapMethods) {
        Tag::BootstrapMethods
    }     else if s == name_of(Tag::MethodParameters) {
        Tag::MethodParameters
    } else {
        Tag::Unknown
    }
}

fn same_bytes(a: &[u8], b: &[u8]) -> (r: bool)
    ensures
        r == (a@ == b@),
{
    if a.len() != b.len() {
        return false;
    }
    let mut i: usize = 0;
    while i < a.len()
        invariant
            a@.len() == b@.len(),
            0 <= i <= a@.len(),
            forall|j: int| 0 <= j < i ==> a@[j] == b@[j],
        decreases a@.len() - i,
    {
        if a[i] != b[i] {
            return false;
        }
        i += 1;
    }
    assert(a@ =~= b@);
    true
}

/// The kind that an attribute name selects.
impl From<&[u8]> for Tag {
    fn from(raw: &[u8]) -> (r: Tag) {
        let constantvalue: [u8; 13] = [67, 111, 110, 115, 116, 97, 110, 116, 86, 97, 108, 117, 101];
        assert(constantvalue@ =~= name_of(Tag::ConstantValue));
        if same_bytes(raw, constantvalue.as_slice()) {
            return Tag::ConstantValue;
        }
        let code: [u8; 4] = [67, 111, 100, 101];
        assert(code@ =~= name_of(Tag::Code));
        if same_bytes(raw, code.as_slice()) {
            return Tag::Code;
        }
        let stackmaptable: [u8; 13] = [83, 116, 97, 99, 107, 77, 97, 112, 84, 97, 98, 108, 101];
        assert(stackmaptable@ =~= name_of(Tag::StackMapTable));
        if same_bytes(raw, stackmaptable.as_slice()) {
            return Tag::StackMapTable;
        }
        let exceptions: [u8; 10] = [69, 120, 99, 101, 112, 116, 105, 111, 110, 115];
        assert(exceptions@ =~= name_of(Tag::Exceptions));
        if same_bytes(raw, exceptions.as_slice()) {
            return Tag::Exceptions;
        }
        let innerclasses: [u8; 12] = [73, 110, 110, 101, 114, 67, 108, 97, 115, 115, 101, 115];
        assert(innerclasses@ =~= name_of(Tag::InnerClasses));
        if same_bytes(raw, innerclasses.as_slice()) {
            return Tag::InnerClasses;
        }
        let enclosingmethod: [u8; 15] = [69, 110, 99, 108, 111, 115, 105, 110, 103, 77, 101, 116, 104, 111, 100];
        assert(enclosingmethod@ =~= name_of(Tag::EnclosingMethod));
        if same_bytes(raw, enclosingmethod.as_slice()) {
            return Tag::EnclosingMethod;
        }
        let synthetic: [u8; 9] = [83, 121, 110, 116, 104, 101, 116, 105, 99];
        assert(synthetic@ =~= name_of(Tag::Synthetic));
        if same_bytes(raw, synthetic.as_slice()) {
            return Tag::Synthetic;
        }
        let signature: [u8; 9] = [83, 105, 103, 110, 97, 116, 117, 114, 101];
        assert(signature@ =~= name_of(Tag::Signature));
        if same_bytes(raw, signature.as_slice()) {
            return Tag::Signature;
        }
        let sourcefile: [u8; 10] = [83, 111, 117, 114, 99, 101, 70, 105, 108, 101];
        assert(sourcefile@ =~= name_of(Tag::SourceFile));
        if same_bytes(raw, sourcefile.as_slice()) {
            return Tag::SourceFile;
        }
        let sourcedebugextension: [u8; 20] = [83, 111, 117, 114, 99, 101, 68, 101, 98, 117, 103, 69, 120, 116, 101, 110, 115, 105, 111, 110];
        assert(sourcedebugextension@ =~= name_of(Tag::SourceDebugExtension));
        if same_bytes(raw, sourcedebugextension.as_slice()) {
            return Tag::SourceDebugExtension;
        }
        let linenumbertable: [u8; 15] = [76, 105, 110, 101, 78, 117, 109, 98, 101, 114, 84, 97, 98, 108, 101];
        assert(linenumbertable@ =~= name_of(Tag::LineNumberTable));
        if same_bytes(raw, linenumbertable.as_slice()) {
            return Tag::LineNumberTable;
        }
        let localvariabletable: [u8; 18] = [76, 111, 99, 97, 108, 86, 97, 114, 105, 97, 98, 108, 101, 84, 97, 98, 108, 101];
        assert(localvariabletable@ =~= name_of(Tag::LocalVariableTable));
        if same_bytes(raw, localvariabletable.as_slice()) {
            return Tag::LocalVariableTable;
        }
        let localvariabletypetable: [u8; 22] = [76, 111, 99, 97, 108, 86, 97, 114, 105, 97, 98, 108, 101, 84, 121, 112, 101, 84, 97, 98, 108, 101];
        assert(localvariabletypetable@ =~= name_of(Tag::LocalVariableTypeTable));
        if same_bytes(raw, localvariabletypetable.as_slice()) {
            return Tag::LocalVariableTypeTable;
        }
        let deprecated: [u8; 10] = [68, 101, 112, 114, 101, 99, 97, 116, 101, 100];
        assert(deprecated@ =~= name_of(Tag::Deprecated));
        if same_bytes(raw, deprecated.as_slice()) {
            return Tag::Deprecated;
        }
        let runtimevisibleannotations: [u8; 25] = [82, 117, 110, 116, 105, 109, 101, 86, 105, 115, 105, 98, 108, 101, 65, 110, 110, 111, 116, 97, 116, 105, 111, 110, 115];
        assert(runtimevisibleannotations@ =~= name_of(Tag::RuntimeVisibleAnnotations));
        if same_bytes(raw, runtimevisibleannotations.as_slice()) {
            return Tag::RuntimeVisibleAnnotations;
        }
        let runtimeinvisibleannotations: [u8; 27] = [82, 117, 110, 116, 105, 109, 101, 73, 110, 118, 105, 115, 105, 98, 108, 101, 65, 110, 110, 111, 116, 97, 116, 105, 111, 110, 115];
        assert(runtimeinvisibleannotations@ =~= name_of(Tag::RuntimeInvisibleAnnotations));
        if same_bytes(raw, runtimeinvisibleannotations.as_slice()) {
            return Tag::RuntimeInvisibleAnnotations;
        }
        let runtimevisibleparameterannotations: [u8; 34] = [82, 117, 110, 116, 105, 109, 101, 86, 105, 115, 105, 98, 108, 101, 80, 97, 114, 97, 109, 101, 116, 101, 114, 65, 110, 110, 111, 116, 97, 116, 105, 111, 110, 115];
        assert(runtimevisibleparameterannotations@ =~= name_of(Tag::RuntimeVisibleParameterAnnotations));
        if same_bytes(raw, runtimevisibleparameterannotations.as_slice()) {
            return Tag::RuntimeVisibleParameterAnnotations;
        }
        let runtimeinvisibleparameterannotations: [u8; 36] = [82, 117, 110, 116, 105, 109, 101, 73, 110, 118, 105, 115, 105, 98, 108, 101, 80, 97, 114, 97, 109, 101, 116, 101, 114, 65, 110, 110, 111, 116, 97, 116, 105, 111, 110, 115];
        assert(runtimeinvisibleparameterannotations@ =~= name_of(Tag::RuntimeInvisibleParameterAnnotations));
        if same_bytes(raw, runtimeinvisibleparameterannotations.as_slice()) {
            return Tag::RuntimeInvisibleParameterAnnotations;
        }
        let runtimevisibletypeannotations: [u8; 29] = [82, 117, 110, 116, 105, 109, 101, 86, 105, 115, 105, 98, 108, 101, 84, 121, 112, 101, 65, 110, 110, 111, 116, 97, 116, 105, 111, 110, 115];
        assert(runtimevisibletypeannotations@ =~= name_of(Tag::RuntimeVisibleTypeAnnotations));
        if same_bytes(raw, runtimevisibletypeannotations.as_slice()) {
            return Tag::RuntimeVisibleTypeAnnotations;
        }
        let runtimeinvisibletypeannotations: [u8; 31] = [82, 117, 110, 116, 105, 109, 101, 73, 110, 118, 105, 115, 105, 98, 108, 101, 84, 121, 112, 101, 65, 110, 110, 111, 116, 97, 116, 105, 111, 110, 115];
        assert(runtimeinvisibletypeannotations@ =~= name_of(Tag::RuntimeInvisibleTypeAnnotations));
        if same_bytes(raw, runtimeinvisibletypeannotations.as_slice()) {
            return Tag::RuntimeInvisibleTypeAnnotations;
        }
        let annotationdefault: [u8; 17] = [65, 110, 110, 111, 116, 97, 116, 105, 111, 110, 68, 101, 102, 97, 117, 108, 116];
        assert(annotationdefault@ =~= name_of(Tag::AnnotationDefault));
        if same_bytes(raw, annotationdefault.as_slice()) {
            return Tag::AnnotationDefault;
        }
        let bootstrapmethods: [u8; 16] = [66, 111, 111, 116, 115, 116, 114, 97, 112, 77, 101, 116, 104, 111, 100, 115];
        assert(bootstrapmethods@ =~= name_of(Tag::BootstrapMethods));
        if same_bytes(raw, bootstrapmethods.as_slice()) {
            return Tag::BootstrapMethods;
        }
        let methodparameters: [u8; 16] = [77, 101, 116, 104, 111, 100, 80, 97, 114, 97, 109, 101, 116, 101, 114, 115];
        assert(methodparameters@ =~= name_of(Tag::MethodParameters));
        if same_bytes(raw, methodparameters.as_slice()) {
            return Tag::MethodParameters;
        }
        Tag::Unknown
    }
}

impl vstd::std_specs::convert::FromSpecImpl<&[u8]> for Tag {
    open spec fn obeys_from_spec() -> bool {
        true
    }

    open spec fn from_spec(raw: &[u8]) -> Tag {
        tag_of_name(raw@)
    }
}

#[derive(Debug)]
pub struct Code {
    pub max_stack: u16,
    pub max_locals: u16,
    pub code: Arc<Vec<u8>>,
    pub exceptions: Vec<CodeException>,
    pub attrs: Vec<Type>,
}

#[derive(Debug, Clone, Copy, PartialEq, Eq, Structural)]
pub struct CodeException {
    pub start_pc: u16,
    pub end_pc: u16,
    pub handler_pc: u16,
    pub catch_type: u16,
}

/// A stack map frame; the leading byte `tag` selects the shape by its range.
#[derive(Debug)]
pub enum StackMapFrame {
    Same { tag: u8, offset_delta: u16 },
    SameLocals1StackItem { tag: u8, offset_delta: u16, stack: [VerificationTypeInfo; 1] },
    SameLocals1StackItemExtended { tag: u8, offset_delta: u16, stack: [VerificationTypeInfo; 1] },
    Chop { tag: u8, offset_delta: u16 },
    SameExtended { tag: u8, offset_delta: u16 },
    Append { tag: u8, offset_delta: u16, locals: Vec<VerificationTypeInfo> },
    Full {
        tag: u8,
        offset_delta: u16,
        locals: Vec<VerificationTypeInfo>,
        stack: Vec<VerificationTypeInfo>,
    },
    Reserved(u8),
}

#[derive(Debug, Clone, Copy, PartialEq, Eq, Structural)]
pub struct InnerClass {
    pub inner_class_info_index: u16,
    pub outer_class_info_index: u16,
    pub inner_name_index: u16,
    pub inner_class_access_flags: u16,
}

#[derive(Debug, Clone, Copy, PartialEq, Eq, Structural)]
pub struct EnclosingMethod {
    pub class_index: u16,
    pub method_index: u16,
}

#[derive(Debug, Clone, Copy, PartialEq, Eq, Structural)]
pub struct LineNumber {
    pub start_pc: u16,
    pub number: u16,
}

#[derive(Debug, Clone, Copy, PartialEq, Eq, Structural)]
pub struct LocalVariable {
    pub start_pc: u16,
    pub length: u16,
    pub name_index: u16,
    pub signature_index: u16,
    pub index: u16,
}

#[derive(Debug)]
pub struct AnnotationEntry {
    pub type_descriptor: Arc<Vec<u8>>,
    pub pairs: Vec<ElementValuePair>,
}

#[derive(Debug)]
pub struct ElementValuePair {
    pub name_index: u16,
    pub value: ElementValueType,
}

#[derive(Debug)]
pub enum ElementValueType {
    Byte { val_index: u16 },
    Char { val_index: u16 },
    Double { val_index: u16 },
    Float { val_index: u16 },
    Int { val_index: u16 },
    Long { val_index: u16 },
    Short { val_index: u16 },
    Boolean { val_index: u16 },
    String { val_index: u16 },
    Enum { type_index: u16, val_index: u16 },
    Class { index: u16 },
    Annotation(AnnotationElementValue),
    Array { values: Vec<ElementValueType> },
    Unknown,
}

#[derive(Debug)]
pub struct AnnotationElementValue {
    pub value: AnnotationEntry,
}

#[derive(Debug, Clone, Copy, PartialEq, Eq, Structural)]
pub struct MethodParameter {
    pub name_index: u16,
    pub acc_flags: u16,
}

#[derive(Debug)]
pub struct BootstrapMethod {
    pub method_ref: u16,
    pub args: Vec<u16>,
}

#[derive(Debug)]
pub struct TypeAnnotation {
    pub target_info: TargetInfo,
    pub target_path: Vec<TypePath>,
    pub type_index: u16,
    pub pairs: Vec<ElementValuePair>,
}

#[derive(Debug)]
pub enum TargetInfo {
    TypeParameter { type_parameter_index: u8 },
    SuperType { supertype_index: u16 },
    TypeParameterBound { type_parameter_index: u8, bound_index: u8 },
    Empty,
    FormalParameter { formal_parameter_index: u8 },
    Throws { throws_type_index: u16 },
    LocalVar { table: Vec<LocalVarTargetTable> },
    Catch { exception_table_index: u16 },
    Offset { offset: u16 },
    TypeArgument { offset: u16, type_argument_index: u8 },
}

#[derive(Debug, Clone, Copy, PartialEq, Eq, Structural)]
pub struct LocalVarTargetTable {
    pub start_pc: u16,
    pub length: u16,
    pub index: u16,
}

#[derive(Debug, Clone, Copy, PartialEq, Eq, Structural)]
pub struct TypePath {
    pub type_path_kind: u8,
    pub type_argument_index: u8,
}

#[derive(Debug, Clone, Copy, PartialEq, Eq, Structural)]
pub enum VerificationTypeInfo {
    Top,
    Integer,
    Float,
    Long,
    Double,
    Null,
    UninitializedThis,
    Object { cpool_index: u16 },
    Uninitialized { offset: u16 },
}

/// Leading bytes of the element-value kinds.
pub const EV_BYTE: u8 = 66;
pub const EV_CHAR: u8 = 67;
pub const EV_DOUBLE: u8 = 68;
pub const EV_FLOAT: u8 = 70;
pub const EV_INT: u8 = 73;
pub const EV_LONG: u8 = 74;
pub const EV_SHORT: u8 = 83;
pub const EV_BOOLEAN: u8 = 90;
pub const EV_STRING: u8 = 115;
pub const EV_ENUM: u8 = 101;
pub const EV_CLASS: u8 = 99;
pub const EV_ANNOTATION: u8 = 64;
pub const EV_ARRAY: u8 = 91;

/// The kind of an element value, as its leading byte gives it.
#[derive(Debug, Clone, Copy, PartialEq, Eq, Structural)]
pub enum ElementValueTag {
    Byte,
    Char,
    Double,
    Float,
    Int,
    Long,
    Short,
    Boolean,
    String,
    Enum,
    Class,
    Annotation,
    Array,
    Unknown,
}

/// The record that the bytes at `p` encode, and where it ends.
pub open spec fn element_tag_spec(v: u8) -> ElementValueTag {
    if v == EV_BYTE {
        ElementValueTag::Byte
    } else if v == EV_CHAR {
        ElementValueTag::Char
    } else if v == EV_DOUBLE {
        ElementValueTag::Double
    } else if v == EV_FLOAT {
        ElementValueTag::Float
    } else if v == EV_INT {
        ElementValueTag::Int
    } else if v == EV_LONG {
        ElementValueTag::Long
    } else if v == EV_SHORT {
        ElementValueTag::Short
    } else if v == EV_BOOLEAN {
        ElementValueTag::Boolean
    } else if v == EV_STRING {
        ElementValueTag::String
    } else if v == EV_ENUM {
        ElementValueTag::Enum
    } else if v == EV_CLASS {
        ElementValueTag::Class
    } else if v == EV_ANNOTATION {
        ElementValueTag::Annotation
    } else if v == EV_ARRAY {
        ElementValueTag::Array
    } else {
        ElementValueTag::Unknown
    }
}

/// The kind that a leading byte selects; `Unknown` for any other byte.
impl From<u8> for ElementValueTag {
    fn from(v: u8) -> (r: ElementValueTag) {
        match v {
            EV_BYTE => ElementValueTag::Byte,
            EV_CHAR => ElementValueTag::Char,
            EV_DOUBLE => ElementValueTag::Double,
            EV_FLOAT => ElementValueTag::Float,
            EV_INT => ElementValueTag::Int,
            EV_LONG => ElementValueTag::Long,
            EV_SHORT => ElementValueTag::Short,
            EV_BOOLEAN => ElementValueTag::Boolean,
            EV_STRING => ElementValueTag::String,
            EV_ENUM => ElementValueTag::Enum,
            EV_CLASS => ElementValueTag::Class,
            EV_ANNOTATION => ElementValueTag::Annotation,
            EV_ARRAY => ElementValueTag::Array,
            _ => ElementValueTag::Unknown,
        }
    }
}

impl vstd::std_specs::convert::FromSpecImpl<u8> for ElementValueTag {
    open spec fn obeys_from_spec() -> bool {
        true
    }

    open spec fn from_spec(v: u8) -> ElementValueTag {
        element_tag_spec(v)
    }
}

} // verus!
