//! A pull parser for compiled Java class files.
//!
//! A `ClassReader` is built over the bytes of one class file. It indexes the
//! constant pool at once and hands out readers that yield the constructs of
//! the file as events, in a fixed order. Every reader decodes on demand, and
//! every decoding function returns its error instead of panicking.

pub mod access;
pub mod annotations;
pub mod attribute;
pub mod bootstrap;
pub mod buffer;
pub mod class_events;
pub mod class_reader;
pub mod code;
pub mod constant_pool;
pub mod constants;
pub mod error;
pub mod events;
pub mod field;
pub mod frame;
pub mod handle;
pub mod label;
pub mod members;
pub mod method_reader;
pub mod module_reader;
pub mod opcodes;
pub mod readers;
pub mod scan;
pub mod text;
pub mod tree;
pub mod type_annotation;

pub use access::{
    ClassAccess, ClassReaderFlags, FieldAccess, InnerClassAccess, MethodAccess, ModuleAccess,
    ModuleRelationAccess, ModuleRequireAccess, ParameterAccess,
};
pub use attribute::{KnownAttribute, UnknownAttribute};
pub use bootstrap::BootstrapMethod;
pub use buffer::ClassBuffer;
pub use class_events::ClassReaderEvents;
pub use class_reader::{ClassReader, InterfacesIterator};
pub use code::{CodeData, LabelTable};
pub use constant_pool::{
    ConstantPool, ConstantPoolEntry, ConstantPoolTag, DynamicEntry, MemberRef, NameAndType,
};
pub use constants::{LATEST_MAJOR_VERSION, MAX_ANNOTATION_NESTING};
pub use error::{ClassFileError, ClassFileResult};
pub use events::{
    AnnotationEvent, ClassClassEvent, ClassEvent, ClassFieldEvent, ClassInnerClassEvent,
    ClassMethodEvent, ClassModuleEvent, ClassOuterClassEvent, ClassRecordComponentEvent,
    ClassSourceEvent, FieldEvent, MethodAnnotableParameterCountEvent, MethodEvent,
    MethodLocalVariableAnnotationEvent, MethodLocalVariableEvent, MethodMaxsEvent,
    MethodParameterAnnotationEvent, MethodParameterEvent, MethodTryCatchBlockAnnotationEvent,
    MethodTryCatchBlockEvent, ModuleEvent, ModuleProvidesEvent, ModuleRelationEvent,
    ModuleRequireEvent, RecordComponentEvent,
};
pub use field::FieldValue;
pub use frame::{Frame, FrameValue};
pub use handle::{BootstrapMethodArgument, ConstantDynamic, Handle, HandleKind};
pub use label::{Label, LabelCreator};
pub use members::{
    ClassFieldsIterator, ClassRecordComponentsReaderIterator, FieldReaderEvents,
    RecordComponentReaderEvents,
};
pub use method_reader::{
    BootstrapMethods, ClassMethodsIterator, MethodParameterAnnotationsReaderIterator,
    MethodReaderEvents,
};
pub use module_reader::{
    ModuleProvidesReaderIterator, ModuleReaderEvents, ModuleRelationReaderIterator,
    ModuleRequireReaderIterator,
};
pub use opcodes::{LdcConstant, NewArrayType, Opcode};
pub use readers::{
    AnnotationReaderIterator, ClassInnerClassesReaderIterator, ClassesReaderIterator,
    CustomAttributeReaderIterator, MethodParameterReaderIterator, PackagesReaderIterator,
    StringsReaderIterator, TypeAnnotationReaderIterator, WrapWithResultReaderIterator,
};
pub use text::JavaText;
pub use tree::annotation::{AnnotationNode, AnnotationValue, TypeAnnotationNode};
pub use type_annotation::{
    TypePath, TypePathElement, TypePathError, TypePathIterator, TypeReference,
};
