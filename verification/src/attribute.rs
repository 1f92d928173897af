//! Attributes: the names that the reader knows, and the attributes that it
//! hands on as they are.

use crate::text::JavaText;
use vstd::prelude::*;

verus! {

/// An attribute as the class file holds it: its name and its payload.
#[derive(Debug, Clone, PartialEq, Eq, PartialOrd, Ord, Hash)]
pub struct UnknownAttribute {
    pub name: JavaText,
    /// The payload: the bytes behind the name and the length.
    pub data: Vec<u8>,
}

pub struct UnknownAttributeView {
    pub name: Seq<u8>,
    pub data: Seq<u8>,
}

impl DeepView for UnknownAttribute {
    type V = UnknownAttributeView;

    open spec fn deep_view(&self) -> UnknownAttributeView {
        UnknownAttributeView { name: self.name@, data: self.data@ }
    }
}

/// The bytes of the name `AnnotationDefault`.
pub const ANNOTATION_DEFAULT: [u8; 17] = [
    65, 110, 110, 111, 116, 97, 116, 105, 111, 110, 68, 101, 102, 97, 117, 108, 116,
];

/// The bytes of the name `BootstrapMethods`.
pub const BOOTSTRAP_METHODS: [u8; 16] = [
    66, 111, 111, 116, 115, 116, 114, 97, 112, 77, 101, 116, 104, 111, 100, 115,
];

/// The bytes of the name `Code`.
pub const CODE: [u8; 4] = [67, 111, 100, 101];

/// The bytes of the name `ConstantValue`.
pub const CONSTANT_VALUE: [u8; 13] = [67, 111, 110, 115, 116, 97, 110, 116, 86, 97, 108, 117, 101];

/// The bytes of the name `Deprecated`.
pub const DEPRECATED: [u8; 10] = [68, 101, 112, 114, 101, 99, 97, 116, 101, 100];

/// The bytes of the name `EnclosingMethod`.
pub const ENCLOSING_METHOD: [u8; 15] = [
    69, 110, 99, 108, 111, 115, 105, 110, 103, 77, 101, 116, 104, 111, 100,
];

/// The bytes of the name `Exceptions`.
pub const EXCEPTIONS: [u8; 10] = [69, 120, 99, 101, 112, 116, 105, 111, 110, 115];

/// The bytes of the name `InnerClasses`.
pub const INNER_CLASSES: [u8; 12] = [73, 110, 110, 101, 114, 67, 108, 97, 115, 115, 101, 115];

/// The bytes of the name `LineNumberTable`.
pub const LINE_NUMBER_TABLE: [u8; 15] = [76, 105, 110, 101, 78, 117, 109, 98, 101, 114, 84, 97, 98, 108, 101];

/// The bytes of the name `LocalVariableTable`.
pub const LOCAL_VARIABLE_TABLE: [u8; 18] = [
    76, 111, 99, 97, 108, 86, 97, 114, 105, 97, 98, 108, 101, 84, 97, 98, 108, 101,
];

/// The bytes of the name `LocalVariableTypeTable`.
pub const LOCAL_VARIABLE_TYPE_TABLE: [u8; 22] = [
    76, 111, 99, 97, 108, 86, 97, 114, 105, 97, 98, 108, 101, 84, 121, 112, 101, 84, 97, 98, 108,
    101,
];

/// The bytes of the name `MethodParameters`.
pub const METHOD_PARAMETERS: [u8; 16] = [
    77, 101, 116, 104, 111, 100, 80, 97, 114, 97, 109, 101, 116, 101, 114, 115,
];

/// The bytes of the name `Module`.
pub const MODULE: [u8; 6] = [77, 111, 100, 117, 108, 101];

/// The bytes of the name `ModuleMainClass`.
pub const MODULE_MAIN_CLASS: [u8; 15] = [
    77, 111, 100, 117, 108, 101, 77, 97, 105, 110, 67, 108, 97, 115, 115,
];

/// The bytes of the name `ModulePackages`.
pub const MODULE_PACKAGES: [u8; 14] = [77, 111, 100, 117, 108, 101, 80, 97, 99, 107, 97, 103, 101, 115];

/// The bytes of the name `NestHost`.
pub const NEST_HOST: [u8; 8] = [78, 101, 115, 116, 72, 111, 115, 116];

/// The bytes of the name `NestMembers`.
pub const NEST_MEMBERS: [u8; 11] = [78, 101, 115, 116, 77, 101, 109, 98, 101, 114, 115];

/// The bytes of the name `PermittedSubclasses`.
pub const PERMITTED_SUBCLASSES: [u8; 19] = [
    80, 101, 114, 109, 105, 116, 116, 101, 100, 83, 117, 98, 99, 108, 97, 115, 115, 101, 115,
];

/// The bytes of the name `Record`.
pub const RECORD: [u8; 6] = [82, 101, 99, 111, 114, 100];

/// The bytes of the name `RuntimeInvisibleAnnotations`.
pub const RUNTIME_INVISIBLE_ANNOTATIONS: [u8; 27] = [
    82, 117, 110, 116, 105, 109, 101, 73, 110, 118, 105, 115, 105, 98, 108, 101, 65, 110, 110, 111,
    116, 97, 116, 105, 111, 110, 115,
];

/// The bytes of the name `RuntimeInvisibleParameterAnnotations`.
pub const RUNTIME_INVISIBLE_PARAMETER_ANNOTATIONS: [u8; 36] = [
    82, 117, 110, 116, 105, 109, 101, 73, 110, 118, 105, 115, 105, 98, 108, 101, 80, 97, 114, 97,
    109, 101, 116, 101, 114, 65, 110, 110, 111, 116, 97, 116, 105, 111, 110, 115,
];

/// The bytes of the name `RuntimeInvisibleTypeAnnotations`.
pub const RUNTIME_INVISIBLE_TYPE_ANNOTATIONS: [u8; 31] = [
    82, 117, 110, 116, 105, 109, 101, 73, 110, 118, 105, 115, 105, 98, 108, 101, 84, 121, 112, 101,
    65, 110, 110, 111, 116, 97, 116, 105, 111, 110, 115,
];

/// The bytes of the name `RuntimeVisibleAnnotations`.
pub const RUNTIME_VISIBLE_ANNOTATIONS: [u8; 25] = [
    82, 117, 110, 116, 105, 109, 101, 86, 105, 115, 105, 98, 108, 101, 65, 110, 110, 111, 116, 97,
    116, 105, 111, 110, 115,
];

/// The bytes of the name `RuntimeVisibleParameterAnnotations`.
pub const RUNTIME_VISIBLE_PARAMETER_ANNOTATIONS: [u8; 34] = [
    82, 117, 110, 116, 105, 109, 101, 86, 105, 115, 105, 98, 108, 101, 80, 97, 114, 97, 109, 101,
    116, 101, 114, 65, 110, 110, 111, 116, 97, 116, 105, 111, 110, 115,
];

/// The bytes of the name `RuntimeVisibleTypeAnnotations`.
pub const RUNTIME_VISIBLE_TYPE_ANNOTATIONS: [u8; 29] = [
    82, 117, 110, 116, 105, 109, 101, 86, 105, 115, 105, 98, 108, 101, 84, 121, 112, 101, 65, 110,
    110, 111, 116, 97, 116, 105, 111, 110, 115,
];

/// The bytes of the name `Signature`.
pub const SIGNATURE: [u8; 9] = [83, 105, 103, 110, 97, 116, 117, 114, 101];

/// The bytes of the name `SourceDebugExtension`.
pub const SOURCE_DEBUG_EXTENSION: [u8; 20] = [
    83, 111, 117, 114, 99, 101, 68, 101, 98, 117, 103, 69, 120, 116, 101, 110, 115, 105, 111, 110,
];

/// The bytes of the name `SourceFile`.
pub const SOURCE_FILE: [u8; 10] = [83, 111, 117, 114, 99, 101, 70, 105, 108, 101];

/// The bytes of the name `StackMap`.
pub const STACK_MAP: [u8; 8] = [83, 116, 97, 99, 107, 77, 97, 112];

/// The bytes of the name `StackMapTable`.
pub const STACK_MAP_TABLE: [u8; 13] = [83, 116, 97, 99, 107, 77, 97, 112, 84, 97, 98, 108, 101];

/// The bytes of the name `Synthetic`.
pub const SYNTHETIC: [u8; 9] = [83, 121, 110, 116, 104, 101, 116, 105, 99];

/// An attribute whose name the reader knows. Which of them it decodes
/// depends on where the attribute stands: on a class, a field, a method, a
/// record component or the code of a method.
#[derive(Debug, Copy, Clone, PartialEq, Eq, Structural, PartialOrd, Ord, Hash)]
pub enum KnownAttribute {
    AnnotationDefault,
    BootstrapMethods,
    Code,
    ConstantValue,
    Deprecated,
    EnclosingMethod,
    Exceptions,
    InnerClasses,
    LineNumberTable,
    LocalVariableTable,
    LocalVariableTypeTable,
    MethodParameters,
    Module,
    ModuleMainClass,
    ModulePackages,
    NestHost,
    NestMembers,
    PermittedSubclasses,
    Record,
    RuntimeInvisibleAnnotations,
    RuntimeInvisibleParameterAnnotations,
    RuntimeInvisibleTypeAnnotations,
    RuntimeVisibleAnnotations,
    RuntimeVisibleParameterAnnotations,
    RuntimeVisibleTypeAnnotations,
    Signature,
    SourceDebugExtension,
    SourceFile,
    StackMap,
    StackMapTable,
    Synthetic,
}

/// The known attribute that the bytes of a name stand for.
pub open spec fn spec_known_attribute(name: Seq<u8>) -> Option<KnownAttribute> {
    if name == ANNOTATION_DEFAULT@ {
        Some(KnownAttribute::AnnotationDefault)
    } else if name == BOOTSTRAP_METHODS@ {
        Some(KnownAttribute::BootstrapMethods)
    } else if name == CODE@ {
        Some(KnownAttribute::Code)
    } else if name == CONSTANT_VALUE@ {
        Some(KnownAttribute::ConstantValue)
    } else if name == DEPRECATED@ {
        Some(KnownAttribute::Deprecated)
    } else if name == ENCLOSING_METHOD@ {
        Some(KnownAttribute::EnclosingMethod)
    } else if name == EXCEPTIONS@ {
        Some(KnownAttribute::Exceptions)
    } else if name == INNER_CLASSES@ {
        Some(KnownAttribute::InnerClasses)
    } else if name == LINE_NUMBER_TABLE@ {
        Some(KnownAttribute::LineNumberTable)
    } else if name == LOCAL_VARIABLE_TABLE@ {
        Some(KnownAttribute::LocalVariableTable)
    } else if name == LOCAL_VARIABLE_TYPE_TABLE@ {
        Some(KnownAttribute::LocalVariableTypeTable)
    } else if name == METHOD_PARAMETERS@ {
        Some(KnownAttribute::MethodParameters)
    } else if name == MODULE@ {
        Some(KnownAttribute::Module)
    } else if name == MODULE_MAIN_CLASS@ {
        Some(KnownAttribute::ModuleMainClass)
    } else if name == MODULE_PACKAGES@ {
        Some(KnownAttribute::ModulePackages)
    } else if name == NEST_HOST@ {
        Some(KnownAttribute::NestHost)
    } else if name == NEST_MEMBERS@ {
        Some(KnownAttribute::NestMembers)
    } else if name == PERMITTED_SUBCLASSES@ {
        Some(KnownAttribute::PermittedSubclasses)
    } else if name == RECORD@ {
        Some(KnownAttribute::Record)
    } else if name == RUNTIME_INVISIBLE_ANNOTATIONS@ {
        Some(KnownAttribute::RuntimeInvisibleAnnotations)
    } else if name == RUNTIME_INVISIBLE_PARAMETER_ANNOTATIONS@ {
        Some(KnownAttribute::RuntimeInvisibleParameterAnnotations)
    } else if name == RUNTIME_INVISIBLE_TYPE_ANNOTATIONS@ {
        Some(KnownAttribute::RuntimeInvisibleTypeAnnotations)
    } else if name == RUNTIME_VISIBLE_ANNOTATIONS@ {
        Some(KnownAttribute::RuntimeVisibleAnnotations)
    } else if name == RUNTIME_VISIBLE_PARAMETER_ANNOTATIONS@ {
        Some(KnownAttribute::RuntimeVisibleParameterAnnotations)
    } else if name == RUNTIME_VISIBLE_TYPE_ANNOTATIONS@ {
        Some(KnownAttribute::RuntimeVisibleTypeAnnotations)
    } else if name == SIGNATURE@ {
        Some(KnownAttribute::Signature)
    } else if name == SOURCE_DEBUG_EXTENSION@ {
        Some(KnownAttribute::SourceDebugExtension)
    } else if name == SOURCE_FILE@ {
        Some(KnownAttribute::SourceFile)
    } else if name == STACK_MAP@ {
        Some(KnownAttribute::StackMap)
    } else if name == STACK_MAP_TABLE@ {
        Some(KnownAttribute::StackMapTable)
    } else if name == SYNTHETIC@ {
        Some(KnownAttribute::Synthetic)
    } else {
        None
    }
}

/// Whether two byte strings are the same.
pub fn same_bytes(a: &[u8], b: &[u8]) -> (r: bool)
    ensures
        r == (a@ == b@),
{
    if a.len() != b.len() {
        return false;
    }
    let mut i: usize = 0;
    while i < a.len()
        invariant
            a@.len() == b@.len(),
            i <= a@.len(),
            forall|k: int| 0 <= k < i ==> a@[k] == b@[k],
        decreases a@.len() - i,
    {
        if a[i] != b[i] {
            return false;
        }
        i = i + 1;
    }
    assert(a@ =~= b@);
    true
}

impl KnownAttribute {
    /// The known attribute that the bytes of a name stand for.
    pub fn from_name(name: &[u8]) -> (r: Option<KnownAttribute>)
        ensures
            r == spec_known_attribute(name@),
    {
        if same_bytes(name, &ANNOTATION_DEFAULT) {
            Some(KnownAttribute::AnnotationDefault)
        } else if same_bytes(name, &BOOTSTRAP_METHODS) {
            Some(KnownAttribute::BootstrapMethods)
        } else if same_bytes(name, &CODE) {
            Some(KnownAttribute::Code)
        } else if same_bytes(name, &CONSTANT_VALUE) {
            Some(KnownAttribute::ConstantValue)
        } else if same_bytes(name, &DEPRECATED) {
            Some(KnownAttribute::Deprecated)
        } else if same_bytes(name, &ENCLOSING_METHOD) {
            Some(KnownAttribute::EnclosingMethod)
        } else if same_bytes(name, &EXCEPTIONS) {
            Some(KnownAttribute::Exceptions)
        } else if same_bytes(name, &INNER_CLASSES) {
            Some(KnownAttribute::InnerClasses)
        } else if same_bytes(name, &LINE_NUMBER_TABLE) {
            Some(KnownAttribute::LineNumberTable)
        } else if same_bytes(name, &LOCAL_VARIABLE_TABLE) {
            Some(KnownAttribute::LocalVariableTable)
        } else if same_bytes(name, &LOCAL_VARIABLE_TYPE_TABLE) {
            Some(KnownAttribute::LocalVariableTypeTable)
        } else if same_bytes(name, &METHOD_PARAMETERS) {
            Some(KnownAttribute::MethodParameters)
        } else if same_bytes(name, &MODULE) {
            Some(KnownAttribute::Module)
        } else if same_bytes(name, &MODULE_MAIN_CLASS) {
            Some(KnownAttribute::ModuleMainClass)
        } else if same_bytes(name, &MODULE_PACKAGES) {
            Some(KnownAttribute::ModulePackages)
        } else if same_bytes(name, &NEST_HOST) {
            Some(KnownAttribute::NestHost)
        } else if same_bytes(name, &NEST_MEMBERS) {
            Some(KnownAttribute::NestMembers)
        } else if same_bytes(name, &PERMITTED_SUBCLASSES) {
            Some(KnownAttribute::PermittedSubclasses)
        } else if same_bytes(name, &RECORD) {
            Some(KnownAttribute::Record)
        } else if same_bytes(name, &RUNTIME_INVISIBLE_ANNOTATIONS) {
            Some(KnownAttribute::RuntimeInvisibleAnnotations)
        } else if same_bytes(name, &RUNTIME_INVISIBLE_PARAMETER_ANNOTATIONS) {
            Some(KnownAttribute::RuntimeInvisibleParameterAnnotations)
        } else if same_bytes(name, &RUNTIME_INVISIBLE_TYPE_ANNOTATIONS) {
            Some(KnownAttribute::RuntimeInvisibleTypeAnnotations)
        } else if same_bytes(name, &RUNTIME_VISIBLE_ANNOTATIONS) {
            Some(KnownAttribute::RuntimeVisibleAnnotations)
        } else if same_bytes(name, &RUNTIME_VISIBLE_PARAMETER_ANNOTATIONS) {
            Some(KnownAttribute::RuntimeVisibleParameterAnnotations)
        } else if same_bytes(name, &RUNTIME_VISIBLE_TYPE_ANNOTATIONS) {
            Some(KnownAttribute::RuntimeVisibleTypeAnnotations)
        } else if same_bytes(name, &SIGNATURE) {
            Some(KnownAttribute::Signature)
        } else if same_bytes(name, &SOURCE_DEBUG_EXTENSION) {
            Some(KnownAttribute::SourceDebugExtension)
        } else if same_bytes(name, &SOURCE_FILE) {
            Some(KnownAttribute::SourceFile)
        } else if same_bytes(name, &STACK_MAP) {
            Some(KnownAttribute::StackMap)
        } else if same_bytes(name, &STACK_MAP_TABLE) {
            Some(KnownAttribute::StackMapTable)
        } else if same_bytes(name, &SYNTHETIC) {
            Some(KnownAttribute::Synthetic)
        } else {
            None
        }
    }
}

} // verus!
