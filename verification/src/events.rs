//! The events that the readers yield.

use crate::access::{
    ClassAccess, FieldAccess, InnerClassAccess, MethodAccess, ModuleAccess, ModuleRelationAccess,
    ModuleRequireAccess, ParameterAccess,
};
use crate::handle::{
    arguments_view, BootstrapMethodArgument, BootstrapMethodArgumentView, Handle, HandleView,
};
use crate::field::{FieldValue, FieldValueView};
use crate::frame::{Frame, FrameView};
use crate::label::{Label, LabelCreator, LabelCreatorView};
use crate::members::{
    FieldReaderEvents, FieldReaderEventsView, RecordComponentReaderEvents,
    RecordComponentReaderEventsView,
};
use crate::method_reader::{
    ClassMethodsIterator, ClassMethodsIteratorView, MethodParameterAnnotationsReaderIterator,
    MethodReaderEvents, MethodReaderEventsView,
};
use crate::module_reader::{
    ModuleProvidesReaderIterator, ModuleReaderEvents, ModuleRelationReaderIterator,
    ModuleRequireReaderIterator,
};
use crate::opcodes::{LdcConstant, LdcConstantView, NewArrayType, Opcode};
use crate::readers::{
    AnnotationReaderIterator, ClassInnerClassesReaderIterator, ClassesReaderIterator,
    CustomAttributeReaderIterator, CustomAttributeReaderIteratorView, MethodParameterReaderIterator,
    PackagesReaderIterator, TypeAnnotationReaderIterator, WrapWithResultReaderIterator,
};
use crate::members::{ClassFieldsIterator, ClassRecordComponentsReaderIterator};
use crate::tree::annotation::{AnnotationValue, AnnotationValueView};
use crate::text::JavaText;
use crate::tree::annotation::{
    AnnotationNode, AnnotationNodeView, TypeAnnotationNode, TypeAnnotationNodeView,
};
use vstd::prelude::*;

verus! {

/// The header of a class.
#[derive(Debug, Clone, PartialEq, Eq, PartialOrd, Ord, Hash)]
pub struct ClassClassEvent {
    pub major_version: u16,
    pub minor_version: u16,
    pub access: ClassAccess,
    pub name: JavaText,
    pub signature: Option<JavaText>,
    /// Nothing for the class `java/lang/Object` alone, and for modules.
    pub super_name: Option<JavaText>,
    pub interfaces: Vec<JavaText>,
}

pub struct ClassClassEventView {
    pub major_version: u16,
    pub minor_version: u16,
    pub access: ClassAccess,
    pub name: Seq<u8>,
    pub signature: Option<Seq<u8>>,
    pub super_name: Option<Seq<u8>>,
    pub interfaces: Seq<Seq<u8>>,
}

impl DeepView for ClassClassEvent {
    type V = ClassClassEventView;

    open spec fn deep_view(&self) -> ClassClassEventView {
        ClassClassEventView {
            major_version: self.major_version,
            minor_version: self.minor_version,
            access: self.access,
            name: self.name@,
            signature: self.signature.deep_view(),
            super_name: self.super_name.deep_view(),
            interfaces: self.interfaces.deep_view(),
        }
    }
}

/// Where a class came from.
#[derive(Debug, Clone, PartialEq, Eq, PartialOrd, Ord, Hash)]
pub struct ClassSourceEvent {
    /// The name of the source file.
    pub source: Option<JavaText>,
    /// The source debug extension.
    pub debug: Option<JavaText>,
}

pub struct ClassSourceEventView {
    pub source: Option<Seq<u8>>,
    pub debug: Option<Seq<u8>>,
}

impl DeepView for ClassSourceEvent {
    type V = ClassSourceEventView;

    open spec fn deep_view(&self) -> ClassSourceEventView {
        ClassSourceEventView {
            source: self.source.deep_view(),
            debug: self.debug.deep_view(),
        }
    }
}

/// The header of a module.
#[derive(Debug)]
pub struct ClassModuleEvent<'reader, 'class> {
    pub name: JavaText,
    pub access: ModuleAccess,
    pub version: Option<JavaText>,
    /// What the module declares.
    pub events: ModuleReaderEvents<'reader, 'class>,
}

pub struct ClassModuleEventView<'reader, 'class> {
    pub name: Seq<u8>,
    pub access: ModuleAccess,
    pub version: Option<Seq<u8>>,
    pub events: ModuleReaderEvents<'reader, 'class>,
}

impl<'reader, 'class> DeepView for ClassModuleEvent<'reader, 'class> {
    type V = ClassModuleEventView<'reader, 'class>;

    open spec fn deep_view(&self) -> ClassModuleEventView<'reader, 'class> {
        ClassModuleEventView {
            name: self.name@,
            access: self.access,
            version: self.version.deep_view(),
            events: self.events,
        }
    }
}

/// The class that encloses a local or anonymous class, and the method in
/// which it stands, if it stands in one.
#[derive(Debug, Clone, PartialEq, Eq, PartialOrd, Ord, Hash)]
pub struct ClassOuterClassEvent {
    pub owner: JavaText,
    pub method_name: Option<JavaText>,
    pub method_desc: Option<JavaText>,
}

pub struct ClassOuterClassEventView {
    pub owner: Seq<u8>,
    pub method_name: Option<Seq<u8>>,
    pub method_desc: Option<Seq<u8>>,
}

impl DeepView for ClassOuterClassEvent {
    type V = ClassOuterClassEventView;

    open spec fn deep_view(&self) -> ClassOuterClassEventView {
        ClassOuterClassEventView {
            owner: self.owner@,
            method_name: self.method_name.deep_view(),
            method_desc: self.method_desc.deep_view(),
        }
    }
}

/// An entry of the table of inner classes.
#[derive(Debug, Clone, PartialEq, Eq, PartialOrd, Ord, Hash)]
pub struct ClassInnerClassEvent {
    pub name: JavaText,
    pub outer_name: Option<JavaText>,
    pub inner_name: Option<JavaText>,
    pub access: InnerClassAccess,
}

pub struct ClassInnerClassEventView {
    pub name: Seq<u8>,
    pub outer_name: Option<Seq<u8>>,
    pub inner_name: Option<Seq<u8>>,
    pub access: InnerClassAccess,
}

impl DeepView for ClassInnerClassEvent {
    type V = ClassInnerClassEventView;

    open spec fn deep_view(&self) -> ClassInnerClassEventView {
        ClassInnerClassEventView {
            name: self.name@,
            outer_name: self.outer_name.deep_view(),
            inner_name: self.inner_name.deep_view(),
            access: self.access,
        }
    }
}

/// A component of a record.
#[derive(Debug)]
pub struct ClassRecordComponentEvent<'reader, 'class> {
    pub name: JavaText,
    pub desc: JavaText,
    pub signature: Option<JavaText>,
    pub events: RecordComponentReaderEvents<'reader, 'class>,
}

pub struct ClassRecordComponentEventView<'reader, 'class> {
    pub name: Seq<u8>,
    pub desc: Seq<u8>,
    pub signature: Option<Seq<u8>>,
    pub events: RecordComponentReaderEventsView<'reader, 'class>,
}

impl<'reader, 'class> DeepView for ClassRecordComponentEvent<'reader, 'class> {
    type V = ClassRecordComponentEventView<'reader, 'class>;

    open spec fn deep_view(&self) -> ClassRecordComponentEventView<'reader, 'class> {
        ClassRecordComponentEventView {
            name: self.name@,
            desc: self.desc@,
            signature: self.signature.deep_view(),
            events: self.events.deep_view(),
        }
    }
}

/// A field.
#[derive(Debug)]
pub struct ClassFieldEvent<'reader, 'class> {
    pub access: FieldAccess,
    pub name: JavaText,
    pub desc: JavaText,
    pub signature: Option<JavaText>,
    pub value: Option<FieldValue>,
    pub events: FieldReaderEvents<'reader, 'class>,
}

pub struct ClassFieldEventView<'reader, 'class> {
    pub access: FieldAccess,
    pub name: Seq<u8>,
    pub desc: Seq<u8>,
    pub signature: Option<Seq<u8>>,
    pub value: Option<FieldValueView>,
    pub events: FieldReaderEventsView<'reader, 'class>,
}

impl<'reader, 'class> DeepView for ClassFieldEvent<'reader, 'class> {
    type V = ClassFieldEventView<'reader, 'class>;

    open spec fn deep_view(&self) -> ClassFieldEventView<'reader, 'class> {
        ClassFieldEventView {
            access: self.access,
            name: self.name@,
            desc: self.desc@,
            signature: self.signature.deep_view(),
            value: self.value.deep_view(),
            events: self.events.deep_view(),
        }
    }
}

/// A method.
#[derive(Debug)]
pub struct ClassMethodEvent<'reader, 'class> {
    pub access: MethodAccess,
    pub name: JavaText,
    pub desc: JavaText,
    pub signature: Option<JavaText>,
    pub exceptions: Vec<JavaText>,
    pub events: MethodReaderEvents<'reader, 'class>,
}

pub struct ClassMethodEventView<'reader, 'class> {
    pub access: MethodAccess,
    pub name: Seq<u8>,
    pub desc: Seq<u8>,
    pub signature: Option<Seq<u8>>,
    pub exceptions: Seq<Seq<u8>>,
    pub events: MethodReaderEventsView<'reader, 'class>,
}

impl<'reader, 'class> DeepView for ClassMethodEvent<'reader, 'class> {
    type V = ClassMethodEventView<'reader, 'class>;

    open spec fn deep_view(&self) -> ClassMethodEventView<'reader, 'class> {
        ClassMethodEventView {
            access: self.access,
            name: self.name@,
            desc: self.desc@,
            signature: self.signature.deep_view(),
            exceptions: self.exceptions.deep_view(),
            events: self.events.deep_view(),
        }
    }
}

/// A formal parameter of a method.
#[derive(Debug, Clone, PartialEq, Eq, PartialOrd, Ord, Hash)]
pub struct MethodParameterEvent {
    pub name: Option<JavaText>,
    pub access: ParameterAccess,
}

pub struct MethodParameterEventView {
    pub name: Option<Seq<u8>>,
    pub access: ParameterAccess,
}

impl DeepView for MethodParameterEvent {
    type V = MethodParameterEventView;

    open spec fn deep_view(&self) -> MethodParameterEventView {
        MethodParameterEventView {
            name: self.name.deep_view(),
            access: self.access,
        }
    }
}

/// How many parameters of a method can have annotations.
#[derive(Debug, Copy, Clone, PartialEq, Eq, Structural, PartialOrd, Ord, Hash)]
pub struct MethodAnnotableParameterCountEvent {
    pub count: u8,
    pub visible: bool,
}

impl DeepView for MethodAnnotableParameterCountEvent {
    type V = MethodAnnotableParameterCountEvent;

    open spec fn deep_view(&self) -> MethodAnnotableParameterCountEvent {
        *self
    }
}

/// An annotation on a parameter of a method.
#[derive(Debug, Clone, PartialEq, Eq)]
pub struct MethodParameterAnnotationEvent {
    pub parameter: u8,
    pub visible: bool,
    pub annotation: AnnotationNode,
}

pub struct MethodParameterAnnotationEventView {
    pub parameter: u8,
    pub visible: bool,
    pub annotation: AnnotationNodeView,
}

impl DeepView for MethodParameterAnnotationEvent {
    type V = MethodParameterAnnotationEventView;

    open spec fn deep_view(&self) -> MethodParameterAnnotationEventView {
        MethodParameterAnnotationEventView {
            parameter: self.parameter,
            visible: self.visible,
            annotation: self.annotation.deep_view(),
        }
    }
}

/// A local variable: its name and type, the stretch of code in which it
/// lives, and its index.
#[derive(Debug, Clone, PartialEq, Eq, PartialOrd, Ord, Hash)]
pub struct MethodLocalVariableEvent {
    pub name: JavaText,
    pub desc: JavaText,
    pub signature: Option<JavaText>,
    pub start: Label,
    pub end: Label,
    pub index: u16,
}

pub struct MethodLocalVariableEventView {
    pub name: Seq<u8>,
    pub desc: Seq<u8>,
    pub signature: Option<Seq<u8>>,
    pub start: Label,
    pub end: Label,
    pub index: u16,
}

impl DeepView for MethodLocalVariableEvent {
    type V = MethodLocalVariableEventView;

    open spec fn deep_view(&self) -> MethodLocalVariableEventView {
        MethodLocalVariableEventView {
            name: self.name@,
            desc: self.desc@,
            signature: self.signature.deep_view(),
            start: self.start,
            end: self.end,
            index: self.index,
        }
    }
}

/// A type annotation on a local variable.
#[derive(Debug, Clone, PartialEq, Eq)]
pub struct MethodLocalVariableAnnotationEvent {
    /// For each stretch of code in which the variable lives: its start, its
    /// end and the index of the variable there.
    pub ranges: Vec<(Label, Label, u16)>,
    pub visible: bool,
    pub annotation: TypeAnnotationNode,
}

pub struct MethodLocalVariableAnnotationEventView {
    pub ranges: Seq<(Label, Label, u16)>,
    pub visible: bool,
    pub annotation: TypeAnnotationNodeView,
}

impl DeepView for MethodLocalVariableAnnotationEvent {
    type V = MethodLocalVariableAnnotationEventView;

    open spec fn deep_view(&self) -> MethodLocalVariableAnnotationEventView {
        MethodLocalVariableAnnotationEventView {
            ranges: self.ranges.deep_view(),
            visible: self.visible,
            annotation: self.annotation.deep_view(),
        }
    }
}

/// A try-catch block.
#[derive(Debug, Clone, PartialEq, Eq, PartialOrd, Ord, Hash)]
pub struct MethodTryCatchBlockEvent {
    pub start: Label,
    pub end: Label,
    pub handler: Label,
    /// The class of the exceptions that the handler takes, or nothing for
    /// a handler that takes all.
    pub ty: Option<JavaText>,
}

pub struct MethodTryCatchBlockEventView {
    pub start: Label,
    pub end: Label,
    pub handler: Label,
    pub ty: Option<Seq<u8>>,
}

impl DeepView for MethodTryCatchBlockEvent {
    type V = MethodTryCatchBlockEventView;

    open spec fn deep_view(&self) -> MethodTryCatchBlockEventView {
        MethodTryCatchBlockEventView {
            start: self.start,
            end: self.end,
            handler: self.handler,
            ty: self.ty.deep_view(),
        }
    }
}

/// A type annotation on the exception type of a try-catch block.
#[derive(Debug, Clone, PartialEq, Eq)]
pub struct MethodTryCatchBlockAnnotationEvent {
    pub try_catch_block_index: u16,
    pub annotation: TypeAnnotationNode,
}

pub struct MethodTryCatchBlockAnnotationEventView {
    pub try_catch_block_index: u16,
    pub annotation: TypeAnnotationNodeView,
}

impl DeepView for MethodTryCatchBlockAnnotationEvent {
    type V = MethodTryCatchBlockAnnotationEventView;

    open spec fn deep_view(&self) -> MethodTryCatchBlockAnnotationEventView {
        MethodTryCatchBlockAnnotationEventView {
            try_catch_block_index: self.try_catch_block_index,
            annotation: self.annotation.deep_view(),
        }
    }
}

/// The limits of the frame of a method.
#[derive(Debug, Copy, Clone, PartialEq, Eq, Structural, PartialOrd, Ord, Hash)]
pub struct MethodMaxsEvent {
    pub max_stack: u16,
    pub max_locals: u16,
}

impl DeepView for MethodMaxsEvent {
    type V = MethodMaxsEvent;

    open spec fn deep_view(&self) -> MethodMaxsEvent {
        *self
    }
}

/// An annotation, and whether it is visible at run time.
#[derive(Debug, PartialEq, Eq, PartialOrd)]
pub struct AnnotationEvent<A> {
    pub visible: bool,
    pub annotation: A,
}

pub struct AnnotationEventView<V> {
    pub visible: bool,
    pub annotation: V,
}

impl<A: DeepView> DeepView for AnnotationEvent<A> {
    type V = AnnotationEventView<A::V>;

    open spec fn deep_view(&self) -> AnnotationEventView<A::V> {
        AnnotationEventView { visible: self.visible, annotation: self.annotation.deep_view() }
    }
}

/// A module that a module requires.
#[derive(Debug, Clone, PartialEq, Eq, PartialOrd, Ord, Hash)]
pub struct ModuleRequireEvent {
    pub module: JavaText,
    pub access: ModuleRequireAccess,
    pub version: Option<JavaText>,
}

pub struct ModuleRequireEventView {
    pub module: Seq<u8>,
    pub access: ModuleRequireAccess,
    pub version: Option<Seq<u8>>,
}

impl DeepView for ModuleRequireEvent {
    type V = ModuleRequireEventView;

    open spec fn deep_view(&self) -> ModuleRequireEventView {
        ModuleRequireEventView {
            module: self.module@,
            access: self.access,
            version: self.version.deep_view(),
        }
    }
}

/// A package that a module exports or opens.
#[derive(Debug, Clone, PartialEq, Eq, PartialOrd, Ord, Hash)]
pub struct ModuleRelationEvent {
    pub package: JavaText,
    pub access: ModuleRelationAccess,
    /// The modules that the package is exported or opened to; none where
    /// it is so to all.
    pub modules: Vec<JavaText>,
}

pub struct ModuleRelationEventView {
    pub package: Seq<u8>,
    pub access: ModuleRelationAccess,
    pub modules: Seq<Seq<u8>>,
}

impl DeepView for ModuleRelationEvent {
    type V = ModuleRelationEventView;

    open spec fn deep_view(&self) -> ModuleRelationEventView {
        ModuleRelationEventView {
            package: self.package@,
            access: self.access,
            modules: self.modules.deep_view(),
        }
    }
}

/// A service that a module provides, with the classes that provide it.
#[derive(Debug, Clone, PartialEq, Eq, PartialOrd, Ord, Hash)]
pub struct ModuleProvidesEvent {
    pub service: JavaText,
    pub providers: Vec<JavaText>,
}

pub struct ModuleProvidesEventView {
    pub service: Seq<u8>,
    pub providers: Seq<Seq<u8>>,
}

impl DeepView for ModuleProvidesEvent {
    type V = ModuleProvidesEventView;

    open spec fn deep_view(&self) -> ModuleProvidesEventView {
        ModuleProvidesEventView {
            service: self.service@,
            providers: self.providers.deep_view(),
        }
    }
}

/// An event of a class, in the order in which a class yields them: the
/// header first, then each of the others where the class has it.
#[derive(Debug)]
#[non_exhaustive]
pub enum ClassEvent<'reader, 'class> {
    Class(ClassClassEvent),
    Synthetic,
    Deprecated,
    Source(ClassSourceEvent),
    Module(ClassModuleEvent<'reader, 'class>),
    NestHost(JavaText),
    OuterClass(ClassOuterClassEvent),
    Annotations(AnnotationReaderIterator<'reader, 'class>),
    TypeAnnotations(TypeAnnotationReaderIterator<'reader, 'class>),
    Attributes(CustomAttributeReaderIterator<'reader, 'class>),
    NestMembers(ClassesReaderIterator<'reader, 'class>),
    PermittedSubclasses(ClassesReaderIterator<'reader, 'class>),
    InnerClasses(ClassInnerClassesReaderIterator<'reader, 'class>),
    Record(ClassRecordComponentsReaderIterator<'reader, 'class>),
    Fields(ClassFieldsIterator<'reader, 'class>),
    Methods(ClassMethodsIterator<'reader, 'class>),
}

pub enum ClassEventView<'reader, 'class> {
    Class(ClassClassEventView),
    Synthetic,
    Deprecated,
    Source(ClassSourceEventView),
    Module(ClassModuleEventView<'reader, 'class>),
    NestHost(Seq<u8>),
    OuterClass(ClassOuterClassEventView),
    Annotations(AnnotationReaderIterator<'reader, 'class>),
    TypeAnnotations(TypeAnnotationReaderIterator<'reader, 'class>),
    Attributes(CustomAttributeReaderIteratorView<'reader, 'class>),
    NestMembers(ClassesReaderIterator<'reader, 'class>),
    PermittedSubclasses(ClassesReaderIterator<'reader, 'class>),
    InnerClasses(ClassInnerClassesReaderIterator<'reader, 'class>),
    Record(ClassRecordComponentsReaderIterator<'reader, 'class>),
    Fields(ClassFieldsIterator<'reader, 'class>),
    Methods(ClassMethodsIteratorView<'reader, 'class>),
}

impl<'reader, 'class> DeepView for ClassEvent<'reader, 'class> {
    type V = ClassEventView<'reader, 'class>;

    open spec fn deep_view(&self) -> ClassEventView<'reader, 'class> {
        match self {
            ClassEvent::Class(v) => ClassEventView::Class(v.deep_view()),
            ClassEvent::Synthetic => ClassEventView::Synthetic,
            ClassEvent::Deprecated => ClassEventView::Deprecated,
            ClassEvent::Source(v) => ClassEventView::Source(v.deep_view()),
            ClassEvent::Module(v) => ClassEventView::Module(v.deep_view()),
            ClassEvent::NestHost(v) => ClassEventView::NestHost(v@),
            ClassEvent::OuterClass(v) => ClassEventView::OuterClass(v.deep_view()),
            ClassEvent::Annotations(v) => ClassEventView::Annotations(*v),
            ClassEvent::TypeAnnotations(v) => ClassEventView::TypeAnnotations(*v),
            ClassEvent::Attributes(v) => ClassEventView::Attributes(v.deep_view()),
            ClassEvent::NestMembers(v) => ClassEventView::NestMembers(*v),
            ClassEvent::PermittedSubclasses(v) => ClassEventView::PermittedSubclasses(*v),
            ClassEvent::InnerClasses(v) => ClassEventView::InnerClasses(*v),
            ClassEvent::Record(v) => ClassEventView::Record(*v),
            ClassEvent::Fields(v) => ClassEventView::Fields(*v),
            ClassEvent::Methods(v) => ClassEventView::Methods(v.deep_view()),
        }
    }
}

/// An event of a field.
#[derive(Debug)]
#[non_exhaustive]
pub enum FieldEvent<'reader, 'class> {
    Deprecated,
    Annotations(AnnotationReaderIterator<'reader, 'class>),
    TypeAnnotations(TypeAnnotationReaderIterator<'reader, 'class>),
    Attributes(CustomAttributeReaderIterator<'reader, 'class>),
}

pub enum FieldEventView<'reader, 'class> {
    Deprecated,
    Annotations(AnnotationReaderIterator<'reader, 'class>),
    TypeAnnotations(TypeAnnotationReaderIterator<'reader, 'class>),
    Attributes(CustomAttributeReaderIteratorView<'reader, 'class>),
}

impl<'reader, 'class> DeepView for FieldEvent<'reader, 'class> {
    type V = FieldEventView<'reader, 'class>;

    open spec fn deep_view(&self) -> FieldEventView<'reader, 'class> {
        match self {
            FieldEvent::Deprecated => FieldEventView::Deprecated,
            FieldEvent::Annotations(v) => FieldEventView::Annotations(*v),
            FieldEvent::TypeAnnotations(v) => FieldEventView::TypeAnnotations(*v),
            FieldEvent::Attributes(v) => FieldEventView::Attributes(v.deep_view()),
        }
    }
}

/// An event of a record component.
#[derive(Debug)]
#[non_exhaustive]
pub enum RecordComponentEvent<'reader, 'class> {
    Annotations(AnnotationReaderIterator<'reader, 'class>),
    TypeAnnotations(TypeAnnotationReaderIterator<'reader, 'class>),
    Attributes(CustomAttributeReaderIterator<'reader, 'class>),
}

pub enum RecordComponentEventView<'reader, 'class> {
    Annotations(AnnotationReaderIterator<'reader, 'class>),
    TypeAnnotations(TypeAnnotationReaderIterator<'reader, 'class>),
    Attributes(CustomAttributeReaderIteratorView<'reader, 'class>),
}

impl<'reader, 'class> DeepView for RecordComponentEvent<'reader, 'class> {
    type V = RecordComponentEventView<'reader, 'class>;

    open spec fn deep_view(&self) -> RecordComponentEventView<'reader, 'class> {
        match self {
            RecordComponentEvent::Annotations(v) => RecordComponentEventView::Annotations(*v),
            RecordComponentEvent::TypeAnnotations(v) => RecordComponentEventView::TypeAnnotations(*v),
            RecordComponentEvent::Attributes(v) => RecordComponentEventView::Attributes(v.deep_view()),
        }
    }
}

/// An event of a module.
#[derive(Debug)]
#[non_exhaustive]
pub enum ModuleEvent<'reader, 'class> {
    MainClass(JavaText),
    Packages(PackagesReaderIterator<'reader, 'class>),
    Requires(ModuleRequireReaderIterator<'reader, 'class>),
    Exports(ModuleRelationReaderIterator<'reader, 'class>),
    Opens(ModuleRelationReaderIterator<'reader, 'class>),
    Uses(ClassesReaderIterator<'reader, 'class>),
    Provides(ModuleProvidesReaderIterator<'reader, 'class>),
}

pub enum ModuleEventView<'reader, 'class> {
    MainClass(Seq<u8>),
    Packages(PackagesReaderIterator<'reader, 'class>),
    Requires(ModuleRequireReaderIterator<'reader, 'class>),
    Exports(ModuleRelationReaderIterator<'reader, 'class>),
    Opens(ModuleRelationReaderIterator<'reader, 'class>),
    Uses(ClassesReaderIterator<'reader, 'class>),
    Provides(ModuleProvidesReaderIterator<'reader, 'class>),
}

impl<'reader, 'class> DeepView for ModuleEvent<'reader, 'class> {
    type V = ModuleEventView<'reader, 'class>;

    open spec fn deep_view(&self) -> ModuleEventView<'reader, 'class> {
        match self {
            ModuleEvent::MainClass(v) => ModuleEventView::MainClass(v@),
            ModuleEvent::Packages(v) => ModuleEventView::Packages(*v),
            ModuleEvent::Requires(v) => ModuleEventView::Requires(*v),
            ModuleEvent::Exports(v) => ModuleEventView::Exports(*v),
            ModuleEvent::Opens(v) => ModuleEventView::Opens(*v),
            ModuleEvent::Uses(v) => ModuleEventView::Uses(*v),
            ModuleEvent::Provides(v) => ModuleEventView::Provides(*v),
        }
    }
}

/// An event of a method: what its attributes hold, and then, for a method
/// with code, the code: for each offset in ascending order its label, its
/// line number, its frame, its instruction and the type annotations on the
/// instruction, and behind the last offset the tables of the code.
#[derive(Debug)]
#[non_exhaustive]
pub enum MethodEvent<'reader, 'class> {
    Deprecated,
    Parameters(MethodParameterReaderIterator<'reader, 'class>),
    AnnotationDefault(AnnotationValue),
    Annotations(AnnotationReaderIterator<'reader, 'class>),
    TypeAnnotations(TypeAnnotationReaderIterator<'reader, 'class>),
    AnnotableParameterCount(MethodAnnotableParameterCountEvent),
    ParameterAnnotations(MethodParameterAnnotationsReaderIterator<'reader, 'class>),
    Attributes(CustomAttributeReaderIterator<'reader, 'class>),
    /// The code starts. The event hands on the creator of the labels of the
    /// method, which makes labels that the code does not use.
    Code { label_creator: LabelCreator },
    Frame(Frame),
    /// An instruction without operands.
    Insn(Opcode),
    BIPushInsn(i8),
    SIPushInsn(i16),
    NewArrayInsn(NewArrayType),
    VarInsn { opcode: Opcode, var_index: u16 },
    TypeInsn { opcode: Opcode, ty: JavaText },
    FieldInsn { opcode: Opcode, owner: JavaText, name: JavaText, desc: JavaText },
    MethodInsn { opcode: Opcode, owner: JavaText, name: JavaText, desc: JavaText, is_interface: bool },
    InvokeDynamicInsn {
        name: JavaText,
        desc: JavaText,
        bootstrap_method_handle: Handle,
        bootstrap_method_arguments: Vec<BootstrapMethodArgument>,
    },
    JumpInsn { opcode: Opcode, label: Label },
    Label(Label),
    LdcInsn(LdcConstant),
    IIncInsn { var_index: u16, increment: i16 },
    TableSwitchInsn { low: i32, high: i32, dflt: Label, labels: Vec<Label> },
    LookupSwitchInsn { dflt: Label, values: Vec<(i32, Label)> },
    MultiANewArrayInsn { desc: JavaText, dimensions: u8 },
    InsnAnnotations(WrapWithResultReaderIterator<AnnotationEvent<TypeAnnotationNode>>),
    LineNumber { line: u16, start: Label },
    LocalVariables(WrapWithResultReaderIterator<MethodLocalVariableEvent>),
    LocalVariableAnnotations(WrapWithResultReaderIterator<MethodLocalVariableAnnotationEvent>),
    TryCatchBlocks(WrapWithResultReaderIterator<MethodTryCatchBlockEvent>),
    TryCatchBlockAnnotations(WrapWithResultReaderIterator<MethodTryCatchBlockAnnotationEvent>),
    CodeAttributes(CustomAttributeReaderIterator<'reader, 'class>),
    Maxs(MethodMaxsEvent),
}

pub enum MethodEventView<'reader, 'class> {
    Deprecated,
    Parameters(MethodParameterReaderIterator<'reader, 'class>),
    AnnotationDefault(AnnotationValueView),
    Annotations(AnnotationReaderIterator<'reader, 'class>),
    TypeAnnotations(TypeAnnotationReaderIterator<'reader, 'class>),
    AnnotableParameterCount(MethodAnnotableParameterCountEvent),
    ParameterAnnotations(MethodParameterAnnotationsReaderIterator<'reader, 'class>),
    Attributes(CustomAttributeReaderIteratorView<'reader, 'class>),
    /// The code starts; the number is that of the next label.
    Code { label_creator: LabelCreatorView },
    Frame(FrameView),
    Insn(Opcode),
    BIPushInsn(i8),
    SIPushInsn(i16),
    NewArrayInsn(NewArrayType),
    VarInsn { opcode: Opcode, var_index: u16 },
    TypeInsn { opcode: Opcode, ty: Seq<u8> },
    FieldInsn { opcode: Opcode, owner: Seq<u8>, name: Seq<u8>, desc: Seq<u8> },
    MethodInsn { opcode: Opcode, owner: Seq<u8>, name: Seq<u8>, desc: Seq<u8>, is_interface: bool },
    InvokeDynamicInsn {
        name: Seq<u8>,
        desc: Seq<u8>,
        bootstrap_method_handle: HandleView,
        bootstrap_method_arguments: Seq<BootstrapMethodArgumentView>,
    },
    JumpInsn { opcode: Opcode, label: Label },
    Label(Label),
    LdcInsn(LdcConstantView),
    IIncInsn { var_index: u16, increment: i16 },
    TableSwitchInsn { low: i32, high: i32, dflt: Label, labels: Seq<Label> },
    LookupSwitchInsn { dflt: Label, values: Seq<(i32, Label)> },
    MultiANewArrayInsn { desc: Seq<u8>, dimensions: u8 },
    InsnAnnotations(Seq<AnnotationEventView<TypeAnnotationNodeView>>),
    LineNumber { line: u16, start: Label },
    LocalVariables(Seq<MethodLocalVariableEventView>),
    LocalVariableAnnotations(Seq<MethodLocalVariableAnnotationEventView>),
    TryCatchBlocks(Seq<MethodTryCatchBlockEventView>),
    TryCatchBlockAnnotations(Seq<MethodTryCatchBlockAnnotationEventView>),
    CodeAttributes(CustomAttributeReaderIteratorView<'reader, 'class>),
    Maxs(MethodMaxsEvent),
}

impl<'reader, 'class> DeepView for MethodEvent<'reader, 'class> {
    type V = MethodEventView<'reader, 'class>;

    open spec fn deep_view(&self) -> MethodEventView<'reader, 'class> {
        match self {
            MethodEvent::Deprecated => MethodEventView::Deprecated,
            MethodEvent::Parameters(v) => MethodEventView::Parameters(*v),
            MethodEvent::AnnotationDefault(v) => MethodEventView::AnnotationDefault(v.deep_view()),
            MethodEvent::Annotations(v) => MethodEventView::Annotations(*v),
            MethodEvent::TypeAnnotations(v) => MethodEventView::TypeAnnotations(*v),
            MethodEvent::AnnotableParameterCount(v) => MethodEventView::AnnotableParameterCount(*v),
            MethodEvent::ParameterAnnotations(v) => MethodEventView::ParameterAnnotations(*v),
            MethodEvent::Attributes(v) => MethodEventView::Attributes(v.deep_view()),
            MethodEvent::Code { label_creator } => MethodEventView::Code { label_creator: label_creator@ },
            MethodEvent::Frame(v) => MethodEventView::Frame(v.deep_view()),
            MethodEvent::Insn(v) => MethodEventView::Insn(*v),
            MethodEvent::BIPushInsn(v) => MethodEventView::BIPushInsn(*v),
            MethodEvent::SIPushInsn(v) => MethodEventView::SIPushInsn(*v),
            MethodEvent::NewArrayInsn(v) => MethodEventView::NewArrayInsn(*v),
            MethodEvent::VarInsn { opcode, var_index } => MethodEventView::VarInsn {
                opcode: *opcode,
                var_index: *var_index,
            },
            MethodEvent::TypeInsn { opcode, ty } => MethodEventView::TypeInsn { opcode: *opcode, ty: ty@ },
            MethodEvent::FieldInsn { opcode, owner, name, desc } => MethodEventView::FieldInsn {
                opcode: *opcode,
                owner: owner@,
                name: name@,
                desc: desc@,
            },
            MethodEvent::MethodInsn {
                opcode,
                owner,
                name,
                desc,
                is_interface,
            } => MethodEventView::MethodInsn {
                opcode: *opcode,
                owner: owner@,
                name: name@,
                desc: desc@,
                is_interface: *is_interface,
            },
            MethodEvent::InvokeDynamicInsn {
                name,
                desc,
                bootstrap_method_handle,
                bootstrap_method_arguments,
            } => MethodEventView::InvokeDynamicInsn {
                name: name@,
                desc: desc@,
                bootstrap_method_handle: bootstrap_method_handle.deep_view(),
                bootstrap_method_arguments: arguments_view(bootstrap_method_arguments@),
            },
            MethodEvent::JumpInsn { opcode, label } => MethodEventView::JumpInsn {
                opcode: *opcode,
                label: *label,
            },
            MethodEvent::Label(v) => MethodEventView::Label(*v),
            MethodEvent::LdcInsn(v) => MethodEventView::LdcInsn(v.deep_view()),
            MethodEvent::IIncInsn { var_index, increment } => MethodEventView::IIncInsn {
                var_index: *var_index,
                increment: *increment,
            },
            MethodEvent::TableSwitchInsn { low, high, dflt, labels } => MethodEventView::TableSwitchInsn {
                low: *low,
                high: *high,
                dflt: *dflt,
                labels: labels@,
            },
            MethodEvent::LookupSwitchInsn { dflt, values } => MethodEventView::LookupSwitchInsn {
                dflt: *dflt,
                values: values@,
            },
            MethodEvent::MultiANewArrayInsn { desc, dimensions } => MethodEventView::MultiANewArrayInsn {
                desc: desc@,
                dimensions: *dimensions,
            },
            MethodEvent::InsnAnnotations(v) => MethodEventView::InsnAnnotations(v.deep_view()),
            MethodEvent::LineNumber { line, start } => MethodEventView::LineNumber {
                line: *line,
                start: *start,
            },
            MethodEvent::LocalVariables(v) => MethodEventView::LocalVariables(v.deep_view()),
            MethodEvent::LocalVariableAnnotations(v) => MethodEventView::LocalVariableAnnotations(
                v.deep_view(),
            ),
            MethodEvent::TryCatchBlocks(v) => MethodEventView::TryCatchBlocks(v.deep_view()),
            MethodEvent::TryCatchBlockAnnotations(v) => MethodEventView::TryCatchBlockAnnotations(
                v.deep_view(),
            ),
            MethodEvent::CodeAttributes(v) => MethodEventView::CodeAttributes(v.deep_view()),
            MethodEvent::Maxs(v) => MethodEventView::Maxs(*v),
        }
    }
}

} // verus!
