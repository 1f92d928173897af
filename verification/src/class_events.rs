//! The events of a class: the scan that finds what the class holds, and the
//! steps that yield it.

use crate::access::{ClassAccess, ClassReaderFlags, ModuleAccess};
use crate::attribute::KnownAttribute;
use crate::bootstrap::spec_compute;
use crate::buffer::{be_u16, read_at, spec_advance, spec_read_u16, spec_read_u32};
use crate::class_reader::{
    law_file_opens_as_its_beginning, spec_class_name, spec_opened, spec_super_name, ClassReader,
};
use crate::constant_pool::{
    spec_name_at, spec_names_from, spec_optional_name_and_type_at, spec_optional_utf8_at,
    spec_utf8_at, ConstantPool, ConstantPoolTag, Pool,
};
use crate::error::{yielded, ClassFileError, ClassFileResult};
use crate::events::{
    ClassClassEvent, ClassClassEventView, ClassEvent, ClassEventView, ClassModuleEvent,
    ClassModuleEventView, ClassOuterClassEvent, ClassOuterClassEventView, ClassSourceEvent,
    ClassSourceEventView,
};
use crate::members::{ClassFieldsIterator, ClassRecordComponentsReaderIterator};
use crate::method_reader::{BootstrapMethods, ClassMethodsIterator, ClassMethodsIteratorView};
use crate::module_reader::ModuleReaderEvents;
use crate::readers::{
    AnnotationReaderIterator, ClassInnerClassesReaderIterator, ClassesReaderIterator,
    CustomAttributeReaderIterator, CustomAttributeReaderIteratorView, TypeAnnotationReaderIterator,
};
use crate::scan::{
    is_annotation_list, read_attribute_header, spec_attribute_header, AnnotationOffsets,
    AttributeHeader,
};
use crate::text::{spec_text, JavaText};
use vstd::prelude::*;

verus! {

/// The events of a class, with what the scan of the class has found: for
/// each attribute that the reader knows where its payload starts, and for a
/// list the number of its items with it. An offset of zero stands for an
/// attribute that the class does not have.
#[derive(Debug)]
pub struct ClassReaderEvents<'reader, 'class> {
    pub reader: &'reader ClassReader<'class>,
    pub access: ClassAccess,
    /// The interfaces of the class, until the header of the class is
    /// yielded.
    pub interfaces: Vec<JavaText>,
    pub fields_count: u16,
    pub fields_offset: usize,
    pub methods_count: u16,
    pub methods_offset: usize,
    pub bootstrap_methods_offset: usize,
    pub enclosing_method_offset: usize,
    pub has_synthetic_attribute: bool,
    pub inner_classes_count: u16,
    pub inner_classes_offset: usize,
    pub annotations: AnnotationOffsets,
    pub is_deprecated: bool,
    pub module_main_offset: usize,
    pub module_offset: usize,
    pub module_packages_offset: usize,
    pub nest_host_offset: usize,
    pub nest_members_count: u16,
    pub nest_members_offset: usize,
    pub permitted_subclasses_count: u16,
    pub permitted_subclasses_offset: usize,
    pub record_components_count: u16,
    pub record_components_offset: usize,
    pub signature_offset: usize,
    /// Where the length of the source debug extension stands, four bytes
    /// before its payload.
    pub source_debug_offset: usize,
    pub source_offset: usize,
    /// Where the attributes start that the reader does not decode.
    pub custom_attributes_offsets: Vec<usize>,
    /// The number of the next step.
    pub state: u8,
}

pub struct ClassReaderEventsView<'reader, 'class> {
    pub reader: &'reader ClassReader<'class>,
    pub access: ClassAccess,
    pub interfaces: Seq<Seq<u8>>,
    pub fields_count: u16,
    pub fields_offset: usize,
    pub methods_count: u16,
    pub methods_offset: usize,
    pub bootstrap_methods_offset: usize,
    pub enclosing_method_offset: usize,
    pub has_synthetic_attribute: bool,
    pub inner_classes_count: u16,
    pub inner_classes_offset: usize,
    pub annotations: AnnotationOffsets,
    pub is_deprecated: bool,
    pub module_main_offset: usize,
    pub module_offset: usize,
    pub module_packages_offset: usize,
    pub nest_host_offset: usize,
    pub nest_members_count: u16,
    pub nest_members_offset: usize,
    pub permitted_subclasses_count: u16,
    pub permitted_subclasses_offset: usize,
    pub record_components_count: u16,
    pub record_components_offset: usize,
    pub signature_offset: usize,
    pub source_debug_offset: usize,
    pub source_offset: usize,
    pub custom_attributes_offsets: Seq<usize>,
    pub state: u8,
}

impl<'reader, 'class> DeepView for ClassReaderEvents<'reader, 'class> {
    type V = ClassReaderEventsView<'reader, 'class>;

    open spec fn deep_view(&self) -> ClassReaderEventsView<'reader, 'class> {
        ClassReaderEventsView {
            reader: self.reader,
            access: self.access,
            interfaces: self.interfaces.deep_view(),
            fields_count: self.fields_count,
            fields_offset: self.fields_offset,
            methods_count: self.methods_count,
            methods_offset: self.methods_offset,
            bootstrap_methods_offset: self.bootstrap_methods_offset,
            enclosing_method_offset: self.enclosing_method_offset,
            has_synthetic_attribute: self.has_synthetic_attribute,
            inner_classes_count: self.inner_classes_count,
            inner_classes_offset: self.inner_classes_offset,
            annotations: self.annotations,
            is_deprecated: self.is_deprecated,
            module_main_offset: self.module_main_offset,
            module_offset: self.module_offset,
            module_packages_offset: self.module_packages_offset,
            nest_host_offset: self.nest_host_offset,
            nest_members_count: self.nest_members_count,
            nest_members_offset: self.nest_members_offset,
            permitted_subclasses_count: self.permitted_subclasses_count,
            permitted_subclasses_offset: self.permitted_subclasses_offset,
            record_components_count: self.record_components_count,
            record_components_offset: self.record_components_offset,
            signature_offset: self.signature_offset,
            source_debug_offset: self.source_debug_offset,
            source_offset: self.source_offset,
            custom_attributes_offsets: self.custom_attributes_offsets@,
            state: self.state,
        }
    }
}

/// The offset behind the `remaining` attributes that start at `offset`: each
/// has two bytes, then the length of its payload in four, then the payload.
pub open spec fn spec_skip_attributes(data: Seq<u8>, offset: usize, remaining: int) -> ClassFileResult<usize>
    decreases remaining,
{
    if remaining <= 0 {
        Ok(offset)
    } else {
        match spec_read_u32(data, spec_advance(offset as int, 2) as int) {
            Err(e) => Err(e),
            Ok(length) => spec_skip_attributes(data, spec_advance(offset + 6, length as int), remaining - 1),
        }
    }
}

/// The offset behind the `remaining` fields or methods that start at
/// `offset`: each has six bytes, then the number of its attributes in two,
/// then the attributes.
pub open spec fn spec_skip_members(data: Seq<u8>, offset: usize, remaining: int) -> ClassFileResult<usize>
    decreases remaining,
{
    if remaining <= 0 {
        Ok(offset)
    } else {
        match spec_read_u16(data, spec_advance(offset as int, 6) as int) {
            Err(e) => Err(e),
            Ok(count) => match spec_skip_attributes(data, spec_advance(offset + 6, 2), count as int) {
                Err(e) => Err(e),
                Ok(end) => spec_skip_members(data, end, remaining - 1),
            },
        }
    }
}

/// The events with the list `known` entered, whose payload starts with the
/// number of its items at `payload`.
pub open spec fn spec_class_list<'reader, 'class>(
    events: ClassReaderEventsView<'reader, 'class>,
    known: KnownAttribute,
    count: u16,
    offset: usize,
) -> ClassReaderEventsView<'reader, 'class> {
    match known {
        KnownAttribute::InnerClasses => ClassReaderEventsView {
            inner_classes_count: count,
            inner_classes_offset: offset,
            ..events
        },
        KnownAttribute::NestMembers => ClassReaderEventsView {
            nest_members_count: count,
            nest_members_offset: offset,
            ..events
        },
        KnownAttribute::PermittedSubclasses => ClassReaderEventsView {
            permitted_subclasses_count: count,
            permitted_subclasses_offset: offset,
            ..events
        },
        KnownAttribute::Record => ClassReaderEventsView {
            record_components_count: count,
            record_components_offset: offset,
            ..events
        },
        _ => ClassReaderEventsView {
            annotations: events.annotations.spec_with(known, count, offset),
            ..events
        },
    }
}

/// Whether `known` is a list of a class whose payload starts with the number
/// of its items.
pub open spec fn is_class_list(known: KnownAttribute) -> bool {
    is_annotation_list(known) || known == KnownAttribute::InnerClasses || known
        == KnownAttribute::NestMembers || known == KnownAttribute::PermittedSubclasses || known
        == KnownAttribute::Record
}

/// The events with the attribute `known` entered, whose payload starts at
/// `payload` and which is no list: it is noted, or the place of its payload
/// is kept. The source debug extension is kept by the place of its length.
pub open spec fn spec_class_place<'reader, 'class>(
    events: ClassReaderEventsView<'reader, 'class>,
    known: Option<KnownAttribute>,
    payload: usize,
) -> ClassReaderEventsView<'reader, 'class> {
    match known {
        Some(KnownAttribute::BootstrapMethods) => ClassReaderEventsView {
            bootstrap_methods_offset: payload,
            ..events
        },
        Some(KnownAttribute::Deprecated) => ClassReaderEventsView { is_deprecated: true, ..events },
        Some(KnownAttribute::EnclosingMethod) => ClassReaderEventsView {
            enclosing_method_offset: payload,
            ..events
        },
        Some(KnownAttribute::Module) => ClassReaderEventsView { module_offset: payload, ..events },
        Some(KnownAttribute::ModuleMainClass) => ClassReaderEventsView { module_main_offset: payload, ..events },
        Some(KnownAttribute::ModulePackages) => ClassReaderEventsView {
            module_packages_offset: payload,
            ..events
        },
        Some(KnownAttribute::NestHost) => ClassReaderEventsView { nest_host_offset: payload, ..events },
        Some(KnownAttribute::Signature) => ClassReaderEventsView { signature_offset: payload, ..events },
        Some(KnownAttribute::SourceDebugExtension) => ClassReaderEventsView {
            source_debug_offset: (payload - 4) as usize,
            ..events
        },
        Some(KnownAttribute::SourceFile) => ClassReaderEventsView { source_offset: payload, ..events },
        Some(KnownAttribute::Synthetic) => ClassReaderEventsView { has_synthetic_attribute: true, ..events },
        _ => ClassReaderEventsView {
            custom_attributes_offsets: events.custom_attributes_offsets.push((payload - 6) as usize),
            ..events
        },
    }
}

/// The events with one more attribute of the class taken in.
#[verifier::opaque]
pub open spec fn spec_class_attribute<'reader, 'class>(
    data: Seq<u8>,
    events: ClassReaderEventsView<'reader, 'class>,
    header: AttributeHeader,
) -> ClassFileResult<ClassReaderEventsView<'reader, 'class>> {
    if header.known is Some && is_class_list(header.known->Some_0) {
        match spec_read_u16(data, header.payload as int) {
            Err(e) => Err(e),
            Ok(count) => Ok(spec_class_list(events, header.known->Some_0, count, (header.payload + 2) as usize)),
        }
    } else {
        Ok(spec_class_place(events, header.known, header.payload))
    }
}

/// The events with the `remaining` attributes of the class taken in that
/// start at `offset`.
pub open spec fn spec_class_attributes_from<'reader, 'class>(
    pool: Pool,
    offset: usize,
    remaining: int,
    events: ClassReaderEventsView<'reader, 'class>,
) -> ClassFileResult<ClassReaderEventsView<'reader, 'class>>
    decreases remaining,
{
    if remaining <= 0 {
        Ok(events)
    } else {
        match spec_attribute_header(pool, offset as int) {
            Err(e) => Err(e),
            Ok(header) => match spec_class_attribute(pool.data, events, header) {
                Err(e) => Err(e),
                Ok(next) => spec_class_attributes_from(
                    pool,
                    spec_advance(header.payload as int, header.length as int),
                    remaining - 1,
                    next,
                ),
            },
        }
    }
}

/// Whether one of the `remaining` attributes that start at `offset` has the
/// name that `known` stands for.
pub open spec fn spec_names_attribute(pool: Pool, offset: usize, remaining: int, known: KnownAttribute) -> bool
    decreases remaining,
{
    if remaining <= 0 {
        false
    } else {
        match spec_attribute_header(pool, offset as int) {
            Err(_) => false,
            Ok(header) => header.known == Some(known) || spec_names_attribute(
                pool,
                spec_advance(header.payload as int, header.length as int),
                remaining - 1,
                known,
            ),
        }
    }
}

/// The scan of the attributes of a class notes a list of annotations
/// exactly where the class has the attribute of that list: the place of the
/// visible annotations is known behind the scan where it was known before
/// or an attribute has the name `RuntimeVisibleAnnotations`, and so it is
/// with the invisible ones.
pub proof fn law_annotations_are_noted_where_the_class_has_them<'reader, 'class>(
    pool: Pool,
    offset: usize,
    remaining: int,
    events: ClassReaderEventsView<'reader, 'class>,
)
    requires
        pool.data.len() <= usize::MAX,
        spec_class_attributes_from(pool, offset, remaining, events) is Ok,
    ensures
        spec_class_attributes_from(pool, offset, remaining, events)->Ok_0.annotations.visible_offset != 0 <==> (
        events.annotations.visible_offset != 0 || spec_names_attribute(
            pool,
            offset,
            remaining,
            KnownAttribute::RuntimeVisibleAnnotations,
        )),
        spec_class_attributes_from(pool, offset, remaining, events)->Ok_0.annotations.invisible_offset != 0
            <==> (events.annotations.invisible_offset != 0 || spec_names_attribute(
            pool,
            offset,
            remaining,
            KnownAttribute::RuntimeInvisibleAnnotations,
        )),
    decreases remaining,
{
    reveal(spec_class_attribute);
    if remaining > 0 {
        let header = spec_attribute_header(pool, offset as int)->Ok_0;
        let next = spec_class_attribute(pool.data, events, header)->Ok_0;
        law_annotations_are_noted_where_the_class_has_them(
            pool,
            spec_advance(header.payload as int, header.length as int),
            remaining - 1,
            next,
        );
    }
}

/// The events of a class of which no attribute is known yet.
pub open spec fn spec_fresh_class<'reader, 'class>(
    reader: &'reader ClassReader<'class>,
    access: ClassAccess,
    interfaces: Seq<Seq<u8>>,
    fields_count: u16,
    fields_offset: usize,
    methods_count: u16,
    methods_offset: usize,
) -> ClassReaderEventsView<'reader, 'class> {
    ClassReaderEventsView {
        reader,
        access,
        interfaces,
        fields_count,
        fields_offset,
        methods_count,
        methods_offset,
        bootstrap_methods_offset: 0,
        enclosing_method_offset: 0,
        has_synthetic_attribute: false,
        inner_classes_count: 0,
        inner_classes_offset: 0,
        annotations: AnnotationOffsets::spec_none(),
        is_deprecated: false,
        module_main_offset: 0,
        module_offset: 0,
        module_packages_offset: 0,
        nest_host_offset: 0,
        nest_members_count: 0,
        nest_members_offset: 0,
        permitted_subclasses_count: 0,
        permitted_subclasses_offset: 0,
        record_components_count: 0,
        record_components_offset: 0,
        signature_offset: 0,
        source_debug_offset: 0,
        source_offset: 0,
        custom_attributes_offsets: Seq::empty(),
        state: 0,
    }
}

/// What stands behind the interfaces of a class, from `offset` on: the
/// number of fields and the fields, the number of methods and the methods,
/// the number of attributes and the attributes. Fields and methods are
/// passed over; the attributes are taken in.
pub open spec fn spec_class_members<'reader, 'class>(
    reader: &'reader ClassReader<'class>,
    access: ClassAccess,
    interfaces: Seq<Seq<u8>>,
    offset: int,
) -> ClassFileResult<ClassReaderEventsView<'reader, 'class>> {
    let pool = reader@.pool;
    match spec_read_u16(pool.data, offset) {
        Err(e) => Err(e),
        Ok(fields_count) => match spec_skip_members(pool.data, (offset + 2) as usize, fields_count as int) {
            Err(e) => Err(e),
            Ok(methods) => match spec_read_u16(pool.data, methods as int) {
                Err(e) => Err(e),
                Ok(methods_count) => match spec_skip_members(
                    pool.data,
                    (methods + 2) as usize,
                    methods_count as int,
                ) {
                    Err(e) => Err(e),
                    Ok(attributes) => match spec_read_u16(pool.data, attributes as int) {
                        Err(e) => Err(e),
                        Ok(count) => spec_class_attributes_from(
                            pool,
                            (attributes + 2) as usize,
                            count as int,
                            spec_fresh_class(
                                reader,
                                access,
                                interfaces,
                                fields_count,
                                (offset + 2) as usize,
                                methods_count,
                                (methods + 2) as usize,
                            ),
                        ),
                    },
                },
            },
        },
    }
}

/// The events of the class of `reader`, as the scan of the class finds
/// them: behind the pool stand the access flags, the slots of the class and
/// of its superclass, the number of interfaces and their slots, and then the
/// fields, the methods and the attributes.
pub open spec fn spec_events<'reader, 'class>(reader: &'reader ClassReader<'class>) -> ClassFileResult<
    ClassReaderEventsView<'reader, 'class>,
> {
    let pool = reader@.pool;
    let start = reader@.metadata_start as int;
    match spec_read_u16(pool.data, start) {
        Err(e) => Err(e),
        Ok(bits) => match spec_read_u16(pool.data, start + 6) {
            Err(e) => Err(e),
            Ok(count) => match spec_names_from(
                pool,
                start + 8,
                count as int,
                ConstantPoolTag::Class,
                Seq::empty(),
            ) {
                Err(e) => Err(e),
                Ok(interfaces) => spec_class_members(
                    reader,
                    ClassAccess { bits },
                    interfaces.0,
                    interfaces.1,
                ),
            },
        },
    }
}

/// A class file that is cut short inside its head yields an error. The head
/// is the magic number, the versions, the constant pool and the eight bytes
/// behind the pool, which hold the access flags, the slots of the class and
/// of its superclass and the number of interfaces. Where the first `n` bytes
/// of a file that opens are fewer than its head, they do not open, or the
/// scan for their events fails with a read behind their end.
pub proof fn law_cut_head_yields_an_error<'reader, 'class>(
    whole: &'reader ClassReader<'class>,
    cut: &'reader ClassReader<'class>,
    data: Seq<u8>,
    n: int,
)
    requires
        spec_opened(whole@, data),
        0 <= n <= data.len(),
        n < whole@.metadata_start + 8,
        spec_opened(cut@, data.subrange(0, n)),
    ensures
        cut@.metadata_start == whole@.metadata_start,
        spec_events(cut) is Err,
        spec_events(cut)->Err_0 is OutOfBounds,
{
    law_file_opens_as_its_beginning(data, n);
}

/// Passes over the `count` attributes that start at `offset`.
fn skip_attributes(pool: &ConstantPool, offset: usize, count: u16) -> (r: ClassFileResult<usize>)
    ensures
        r == spec_skip_attributes(pool@.data, offset, count as int),
{
    let buffer = pool.buffer();
    let mut at: usize = offset;
    let mut i: u16 = 0;
    while i < count
        invariant
            i <= count,
            buffer@ == pool@.data,
            spec_skip_attributes(pool@.data, offset, count as int) == spec_skip_attributes(
                pool@.data,
                at,
                count - i,
            ),
        decreases count - i,
    {
        let length: u32 = buffer.read_u32(buffer.advance(at, 2))?;
        at = buffer.advance(at + 6, length as usize);
        i = i + 1;
    }
    Ok(at)
}

/// Passes over the `count` fields or methods that start at `offset`.
fn skip_members(pool: &ConstantPool, offset: usize, count: u16) -> (r: ClassFileResult<usize>)
    ensures
        r == spec_skip_members(pool@.data, offset, count as int),
{
    let buffer = pool.buffer();
    let mut at: usize = offset;
    let mut i: u16 = 0;
    while i < count
        invariant
            i <= count,
            buffer@ == pool@.data,
            spec_skip_members(pool@.data, offset, count as int) == spec_skip_members(pool@.data, at, count - i),
        decreases count - i,
    {
        let attributes_count: u16 = buffer.read_u16(buffer.advance(at, 6))?;
        at = skip_attributes(pool, at + 8, attributes_count)?;
        i = i + 1;
    }
    Ok(at)
}

impl<'reader, 'class> ClassReaderEvents<'reader, 'class> {
    /// Takes in one more attribute of the class.
    fn read_attribute(&mut self, pool: &ConstantPool, header: &AttributeHeader) -> (r: ClassFileResult<()>)
        requires
            6 <= header.payload <= pool@.data.len() <= usize::MAX,
        ensures
            match spec_class_attribute(pool@.data, old(self).deep_view(), *header) {
                Ok(found) => r is Ok && final(self).deep_view() == found,
                Err(e) => r == Err::<(), ClassFileError>(e),
            },
    {
        reveal(spec_class_attribute);
        let payload: usize = header.payload;
        match header.known {
            Some(KnownAttribute::BootstrapMethods) => {
                self.bootstrap_methods_offset = payload;
            },
            Some(KnownAttribute::Deprecated) => {
                self.is_deprecated = true;
            },
            Some(KnownAttribute::EnclosingMethod) => {
                self.enclosing_method_offset = payload;
            },
            Some(KnownAttribute::InnerClasses) => {
                self.inner_classes_count = pool.buffer().read_u16(payload)?;
                self.inner_classes_offset = payload + 2;
            },
            Some(KnownAttribute::Module) => {
                self.module_offset = payload;
            },
            Some(KnownAttribute::ModuleMainClass) => {
                self.module_main_offset = payload;
            },
            Some(KnownAttribute::ModulePackages) => {
                self.module_packages_offset = payload;
            },
            Some(KnownAttribute::NestHost) => {
                self.nest_host_offset = payload;
            },
            Some(KnownAttribute::NestMembers) => {
                self.nest_members_count = pool.buffer().read_u16(payload)?;
                self.nest_members_offset = payload + 2;
            },
            Some(KnownAttribute::PermittedSubclasses) => {
                self.permitted_subclasses_count = pool.buffer().read_u16(payload)?;
                self.permitted_subclasses_offset = payload + 2;
            },
            Some(KnownAttribute::Signature) => {
                self.signature_offset = payload;
            },
            Some(KnownAttribute::SourceDebugExtension) => {
                self.source_debug_offset = payload - 4;
            },
            Some(KnownAttribute::SourceFile) => {
                self.source_offset = payload;
            },
            Some(KnownAttribute::Record) => {
                self.record_components_count = pool.buffer().read_u16(payload)?;
                self.record_components_offset = payload + 2;
            },
            Some(KnownAttribute::RuntimeInvisibleAnnotations) => {
                self.annotations.note(pool, KnownAttribute::RuntimeInvisibleAnnotations, payload)?;
            },
            Some(KnownAttribute::RuntimeInvisibleTypeAnnotations) => {
                self.annotations.note(pool, KnownAttribute::RuntimeInvisibleTypeAnnotations, payload)?;
            },
            Some(KnownAttribute::RuntimeVisibleAnnotations) => {
                self.annotations.note(pool, KnownAttribute::RuntimeVisibleAnnotations, payload)?;
            },
            Some(KnownAttribute::RuntimeVisibleTypeAnnotations) => {
                self.annotations.note(pool, KnownAttribute::RuntimeVisibleTypeAnnotations, payload)?;
            },
            Some(KnownAttribute::Synthetic) => {
                self.has_synthetic_attribute = true;
            },
            _ => {
                self.custom_attributes_offsets.push(payload - 6);
            },
        }
        Ok(())
    }

    /// The events of the class of `reader`: this scans the class once, from
    /// the access flags to the last attribute.
    pub fn new(reader: &'reader ClassReader<'class>) -> (r: ClassFileResult<Self>)
        ensures
            crate::error::deep(r) == spec_events(reader),
    {
        let pool = reader.constant_pool();
        let buffer = pool.buffer();
        let access = reader.access()?;
        let start: usize = reader.metadata_start();
        let interface_count: u16 = buffer.read_u16(buffer.advance(start, 6))?;
        let (interfaces, fields) = pool.names_from(start + 8, interface_count, ConstantPoolTag::Class)?;
        let fields_count: u16 = buffer.read_u16(fields)?;
        let fields_offset: usize = fields + 2;
        let methods: usize = skip_members(pool, fields_offset, fields_count)?;
        let methods_count: u16 = buffer.read_u16(methods)?;
        let methods_offset: usize = methods + 2;
        let attributes: usize = skip_members(pool, methods_offset, methods_count)?;
        let attributes_count: u16 = buffer.read_u16(attributes)?;
        let mut events = ClassReaderEvents {
            reader,
            access,
            interfaces,
            fields_count,
            fields_offset,
            methods_count,
            methods_offset,
            bootstrap_methods_offset: 0,
            enclosing_method_offset: 0,
            has_synthetic_attribute: false,
            inner_classes_count: 0,
            inner_classes_offset: 0,
            annotations: AnnotationOffsets::none(),
            is_deprecated: false,
            module_main_offset: 0,
            module_offset: 0,
            module_packages_offset: 0,
            nest_host_offset: 0,
            nest_members_count: 0,
            nest_members_offset: 0,
            permitted_subclasses_count: 0,
            permitted_subclasses_offset: 0,
            record_components_count: 0,
            record_components_offset: 0,
            signature_offset: 0,
            source_debug_offset: 0,
            source_offset: 0,
            custom_attributes_offsets: Vec::new(),
            state: 0,
        };
        let mut at: usize = attributes + 2;
        let mut i: u16 = 0;
        while i < attributes_count
            invariant
                i <= attributes_count,
                pool@ == reader@.pool,
                buffer@ == pool@.data,
                spec_events(reader) == spec_class_attributes_from(
                    pool@,
                    at,
                    attributes_count - i,
                    events.deep_view(),
                ),
            decreases attributes_count - i,
        {
            let header = read_attribute_header(pool, at)?;
            events.read_attribute(pool, &header)?;
            at = buffer.advance(header.payload, header.length as usize);
            i = i + 1;
        }
        Ok(events)
    }
}

impl<'class> ClassReader<'class> {
    /// The events of the class.
    pub fn events(&self) -> (r: ClassFileResult<ClassReaderEvents<'_, 'class>>)
        ensures
            crate::error::deep(r) == spec_events(self),
    {
        ClassReaderEvents::new(self)
    }
}

/// The generic signature of the class, if it has one.
pub open spec fn spec_signature<'reader, 'class>(events: ClassReaderEventsView<'reader, 'class>) -> ClassFileResult<
    Option<Seq<u8>>,
> {
    if events.signature_offset == 0 {
        Ok(None)
    } else {
        match spec_utf8_at(events.reader@.pool, events.signature_offset as int) {
            Err(e) => Err(e),
            Ok(signature) => Ok(Some(signature)),
        }
    }
}

/// The header of the class. Its parts are decoded in the order: name,
/// superclass, signature.
pub open spec fn spec_class_header<'reader, 'class>(events: ClassReaderEventsView<'reader, 'class>) -> ClassFileResult<
    ClassClassEventView,
> {
    let reader = events.reader@;
    match spec_class_name(reader) {
        Err(e) => Err(e),
        Ok(name) => match spec_super_name(reader) {
            Err(e) => Err(e),
            Ok(super_name) => match spec_signature(events) {
                Err(e) => Err(e),
                Ok(signature) => Ok(
                    ClassClassEventView {
                        major_version: be_u16(reader.pool.data, 6) as u16,
                        minor_version: be_u16(reader.pool.data, 4) as u16,
                        access: events.access,
                        name,
                        signature,
                        super_name,
                        interfaces: events.interfaces,
                    },
                ),
            },
        },
    }
}

/// Whether the class is synthetic: by its access flags, or by the attribute
/// that classes had for it before the flag was there.
pub open spec fn spec_is_synthetic<'reader, 'class>(events: ClassReaderEventsView<'reader, 'class>) -> bool {
    events.access.spec_contains(ClassAccess::SYNTHETIC) || events.has_synthetic_attribute
}

/// The source debug extension whose length stands at `offset`: the length
/// in four bytes, then that many bytes of modified UTF-8.
pub open spec fn spec_source_debug(data: Seq<u8>, offset: int) -> ClassFileResult<Seq<u8>> {
    match spec_read_u32(data, offset) {
        Err(e) => Err(e),
        Ok(length) => match read_at(
            data,
            offset + 4,
            length as int,
            data.subrange(offset + 4, offset + 4 + length),
        ) {
            Err(e) => Err(e),
            Ok(bytes) => spec_text(bytes),
        },
    }
}

/// Where the class came from, unless debug information is skipped or the
/// class says nothing of it.
pub open spec fn spec_source<'reader, 'class>(events: ClassReaderEventsView<'reader, 'class>) -> ClassFileResult<
    Option<ClassSourceEventView>,
> {
    let pool = events.reader@.pool;
    if events.reader@.flags.spec_contains(ClassReaderFlags::SKIP_DEBUG) || (events.source_offset == 0
        && events.source_debug_offset == 0) {
        Ok(None)
    } else {
        match (if events.source_offset == 0 {
            Ok(None)
        } else {
            match spec_utf8_at(pool, events.source_offset as int) {
                Err(e) => Err(e),
                Ok(source) => Ok(Some(source)),
            }
        }) {
            Err(e) => Err(e),
            Ok(source) => match (if events.source_debug_offset == 0 {
                Ok(None)
            } else {
                match spec_source_debug(pool.data, events.source_debug_offset as int) {
                    Err(e) => Err(e),
                    Ok(debug) => Ok(Some(debug)),
                }
            }) {
                Err(e) => Err(e),
                Ok(debug) => Ok(Some(ClassSourceEventView { source, debug })),
            },
        }
    }
}

/// The header of the module, if the class is one: the slot of its name, its
/// flags and the slot of its version, which may be zero. The events of the
/// module start behind them.
pub open spec fn spec_module<'reader, 'class>(events: ClassReaderEventsView<'reader, 'class>) -> ClassFileResult<
    Option<ClassModuleEventView<'reader, 'class>>,
> {
    let pool = events.reader@.pool;
    let offset = events.module_offset as int;
    if events.module_offset == 0 {
        Ok(None)
    } else {
        match spec_name_at(pool, offset, ConstantPoolTag::Module) {
            Err(e) => Err(e),
            Ok(name) => match spec_read_u16(pool.data, offset + 2) {
                Err(e) => Err(e),
                Ok(bits) => match spec_optional_utf8_at(pool, offset + 4) {
                    Err(e) => Err(e),
                    Ok(version) => Ok(
                        Some(
                            ClassModuleEventView {
                                name,
                                access: ModuleAccess { bits },
                                version,
                                events: ModuleReaderEvents {
                                    reader: events.reader,
                                    offset: (offset + 6) as usize,
                                    packages_offset: events.module_packages_offset,
                                    main_offset: events.module_main_offset,
                                    state: 0,
                                },
                            },
                        ),
                    ),
                },
            },
        }
    }
}

/// The host of the nest of the class, if the class names one.
pub open spec fn spec_nest_host<'reader, 'class>(events: ClassReaderEventsView<'reader, 'class>) -> ClassFileResult<
    Option<Seq<u8>>,
> {
    if events.nest_host_offset == 0 {
        Ok(None)
    } else {
        match spec_name_at(events.reader@.pool, events.nest_host_offset as int, ConstantPoolTag::Class) {
            Err(e) => Err(e),
            Ok(name) => Ok(Some(name)),
        }
    }
}

/// The class that encloses the class, if the class names one, with the
/// method in which the class stands, if it stands in one.
pub open spec fn spec_outer_class<'reader, 'class>(events: ClassReaderEventsView<'reader, 'class>) -> ClassFileResult<
    Option<ClassOuterClassEventView>,
> {
    let pool = events.reader@.pool;
    let offset = events.enclosing_method_offset as int;
    if events.enclosing_method_offset == 0 {
        Ok(None)
    } else {
        match spec_name_at(pool, offset, ConstantPoolTag::Class) {
            Err(e) => Err(e),
            Ok(owner) => match spec_optional_name_and_type_at(pool, offset + 2) {
                Err(e) => Err(e),
                Ok(method) => Ok(
                    Some(
                        match method {
                            Some(method) => ClassOuterClassEventView {
                                owner,
                                method_name: Some(method.name),
                                method_desc: Some(method.desc),
                            },
                            None => ClassOuterClassEventView { owner, method_name: None, method_desc: None },
                        },
                    ),
                ),
            },
        }
    }
}

/// What a step yields that decodes something the class may not have:
/// nothing where the class does not have it, else the event that `wrap`
/// makes of it, or the error of decoding it.
pub open spec fn spec_optional_event<'reader, 'class, T>(
    found: ClassFileResult<Option<T>>,
    wrap: spec_fn(T) -> ClassEventView<'reader, 'class>,
) -> Option<ClassFileResult<ClassEventView<'reader, 'class>>> {
    match found {
        Err(e) => Some(Err(e)),
        Ok(None) => None,
        Ok(Some(v)) => Some(Ok(wrap(v))),
    }
}

/// The number of steps of the events of a class.
pub const CLASS_STEPS: u8 = 16;

/// What step `state` of the events of a class yields, if anything. The steps
/// are, in this order: the header of the class; the `Synthetic` and the
/// `Deprecated` marker; the source; the module; the host of the nest; the
/// enclosing class; the annotations; the type annotations; the other
/// attributes; the members of the nest; the permitted subclasses; the inner
/// classes; the record components; the fields; the methods. But for the
/// header, each is yielded only where the class has it.
#[verifier::opaque]
pub open spec fn spec_class_step<'reader, 'class>(events: ClassReaderEventsView<'reader, 'class>, state: u8) -> Option<
    ClassFileResult<ClassEventView<'reader, 'class>>,
> {
    let reader = events.reader;
    if state == 0 {
        Some(
            match spec_class_header(events) {
                Err(e) => Err(e),
                Ok(header) => Ok(ClassEventView::Class(header)),
            },
        )
    } else if state == 1 {
        if spec_is_synthetic(events) {
            Some(Ok(ClassEventView::Synthetic))
        } else {
            None
        }
    } else if state == 2 {
        if events.is_deprecated {
            Some(Ok(ClassEventView::Deprecated))
        } else {
            None
        }
    } else if state == 3 {
        spec_optional_event(spec_source(events), |v: ClassSourceEventView| ClassEventView::Source(v))
    } else if state == 4 {
        spec_optional_event(
            spec_module(events),
            |v: ClassModuleEventView<'reader, 'class>| ClassEventView::Module(v),
        )
    } else if state == 5 {
        spec_optional_event(spec_nest_host(events), |v: Seq<u8>| ClassEventView::NestHost(v))
    } else if state == 6 {
        spec_optional_event(
            spec_outer_class(events),
            |v: ClassOuterClassEventView| ClassEventView::OuterClass(v),
        )
    } else if state == 7 {
        if events.annotations.spec_has_annotations() {
            Some(Ok(ClassEventView::Annotations(events.annotations.spec_annotations(reader))))
        } else {
            None
        }
    } else if state == 8 {
        if events.annotations.spec_has_type_annotations() {
            Some(Ok(ClassEventView::TypeAnnotations(events.annotations.spec_type_annotations(reader))))
        } else {
            None
        }
    } else if state == 9 {
        if events.custom_attributes_offsets.len() > 0 {
            Some(
                Ok(
                    ClassEventView::Attributes(
                        CustomAttributeReaderIteratorView {
                            reader,
                            index: 0,
                            offsets: events.custom_attributes_offsets,
                        },
                    ),
                ),
            )
        } else {
            None
        }
    } else if state == 10 {
        if events.nest_members_offset != 0 {
            Some(
                Ok(
                    ClassEventView::NestMembers(
                        ClassesReaderIterator {
                            reader,
                            count: events.nest_members_count,
                            remaining: events.nest_members_count,
                            offset: events.nest_members_offset,
                        },
                    ),
                ),
            )
        } else {
            None
        }
    } else if state == 11 {
        if events.permitted_subclasses_offset != 0 {
            Some(
                Ok(
                    ClassEventView::PermittedSubclasses(
                        ClassesReaderIterator {
                            reader,
                            count: events.permitted_subclasses_count,
                            remaining: events.permitted_subclasses_count,
                            offset: events.permitted_subclasses_offset,
                        },
                    ),
                ),
            )
        } else {
            None
        }
    } else if state == 12 {
        if events.inner_classes_offset != 0 {
            Some(
                Ok(
                    ClassEventView::InnerClasses(
                        ClassInnerClassesReaderIterator {
                            reader,
                            count: events.inner_classes_count,
                            remaining: events.inner_classes_count,
                            offset: events.inner_classes_offset,
                        },
                    ),
                ),
            )
        } else {
            None
        }
    } else if state == 13 {
        if events.record_components_offset != 0 {
            Some(
                Ok(
                    ClassEventView::Record(
                        ClassRecordComponentsReaderIterator {
                            reader,
                            count: events.record_components_count,
                            remaining: events.record_components_count,
                            offset: events.record_components_offset,
                        },
                    ),
                ),
            )
        } else {
            None
        }
    } else if state == 14 {
        if events.fields_count != 0 {
            Some(
                Ok(
                    ClassEventView::Fields(
                        ClassFieldsIterator {
                            reader,
                            count: events.fields_count,
                            remaining: events.fields_count,
                            offset: events.fields_offset,
                        },
                    ),
                ),
            )
        } else {
            None
        }
    } else if state == 15 {
        if events.methods_count != 0 {
            Some(
                Ok(
                    ClassEventView::Methods(
                        ClassMethodsIteratorView {
                            reader,
                            count: events.methods_count,
                            remaining: events.methods_count,
                            offset: events.methods_offset,
                            bootstrap_methods: spec_compute(
                                reader@.pool,
                                events.bootstrap_methods_offset as int,
                            ),
                        },
                    ),
                ),
            )
        } else {
            None
        }
    } else {
        None
    }
}

/// The events after step `state`: they stand at the next step, and the
/// header of the class, once yielded, has taken the interfaces with it.
pub open spec fn spec_class_after<'reader, 'class>(
    events: ClassReaderEventsView<'reader, 'class>,
    state: u8,
) -> ClassReaderEventsView<'reader, 'class> {
    if state == 0 && spec_class_header(events) is Ok {
        ClassReaderEventsView { interfaces: Seq::empty(), state: (state + 1) as u8, ..events }
    } else {
        ClassReaderEventsView { state: (state + 1) as u8, ..events }
    }
}

/// The next event of a class, if there is one, and the events afterwards.
pub open spec fn spec_class_next<'reader, 'class>(events: ClassReaderEventsView<'reader, 'class>) -> (
    Option<ClassFileResult<ClassEventView<'reader, 'class>>>,
    ClassReaderEventsView<'reader, 'class>,
)
    decreases CLASS_STEPS - events.state,
{
    if events.state >= CLASS_STEPS {
        (None, events)
    } else {
        match spec_class_step(events, events.state) {
            Some(event) => (Some(event), spec_class_after(events, events.state)),
            None => spec_class_next(spec_class_after(events, events.state)),
        }
    }
}

/// All that the events of a class yield from where they stand to their end,
/// in the order in which they are yielded.
pub open spec fn spec_class_drain<'reader, 'class>(events: ClassReaderEventsView<'reader, 'class>) -> Seq<
    ClassFileResult<ClassEventView<'reader, 'class>>,
>
    decreases CLASS_STEPS - events.state,
{
    if events.state >= CLASS_STEPS {
        Seq::empty()
    } else {
        let rest = spec_class_drain(spec_class_after(events, events.state));
        match spec_class_step(events, events.state) {
            Some(event) => seq![event] + rest,
            None => rest,
        }
    }
}

/// The next event of a class is the first of all that the events yield, and
/// the events afterwards yield the rest; where there is no next event, the
/// events yield nothing, now or later.
pub proof fn law_class_next_takes_the_first<'reader, 'class>(events: ClassReaderEventsView<'reader, 'class>)
    ensures
        match spec_class_next(events).0 {
            Some(event) => spec_class_drain(events) == seq![event] + spec_class_drain(
                spec_class_next(events).1,
            ),
            None => spec_class_drain(events) == Seq::<ClassFileResult<ClassEventView<'reader, 'class>>>::empty()
                && spec_class_next(spec_class_next(events).1).0 is None,
        },
        spec_class_next(events).0 is Some ==> spec_class_next(events).1.state > events.state,
    decreases CLASS_STEPS - events.state,
{
    if events.state < CLASS_STEPS {
        if spec_class_step(events, events.state) is None {
            law_class_next_takes_the_first(spec_class_after(events, events.state));
        }
    }
}

/// How many of the events in `drained` hold the annotations of the class.
pub open spec fn spec_annotations_among<'reader, 'class>(
    drained: Seq<ClassFileResult<ClassEventView<'reader, 'class>>>,
) -> nat
    decreases drained.len(),
{
    if drained.len() == 0 {
        0
    } else {
        spec_annotations_among(drained.drop_first()) + (if drained[0] is Ok && drained[0]->Ok_0 is Annotations {
            1nat
        } else {
            0nat
        })
    }
}

/// From the step of the annotations on or before it, the events of a class
/// yield the annotations once where the class has a list of them, visible or
/// not, and else not at all.
pub proof fn lemma_annotations_among<'reader, 'class>(events: ClassReaderEventsView<'reader, 'class>)
    ensures
        spec_annotations_among(spec_class_drain(events)) == (if events.state <= 7
            && events.annotations.spec_has_annotations() {
            1nat
        } else {
            0nat
        }),
    decreases CLASS_STEPS - events.state,
{
    reveal(spec_class_step);
    if events.state < CLASS_STEPS {
        let after = spec_class_after(events, events.state);
        lemma_annotations_among(after);
        let rest = spec_class_drain(after);
        match spec_class_step(events, events.state) {
            Some(event) => {
                let all = seq![event] + rest;
                assert(all[0] == event);
                assert(all.drop_first() =~= rest);
                assert(event is Ok && event->Ok_0 is Annotations <==> events.state == 7);
            },
            None => {},
        }
    }
}

/// The events of a class yield its annotations exactly once where the class
/// has a list of annotations, visible or not, and never where it has none.
/// The event holds the reader of both lists, which takes the visible list
/// first and has as many items as both lists together.
pub proof fn law_annotations_come_once<'reader, 'class>(events: ClassReaderEventsView<'reader, 'class>)
    requires
        events.state == 0,
    ensures
        spec_annotations_among(spec_class_drain(events)) == (if events.annotations.spec_has_annotations() {
            1nat
        } else {
            0nat
        }),
        events.annotations.spec_has_annotations() ==> spec_class_drain(events).contains(
            Ok(ClassEventView::Annotations(events.annotations.spec_annotations(events.reader))),
        ),
{
    lemma_annotations_among(events);
    if events.annotations.spec_has_annotations() {
        lemma_annotations_in_drain(events);
    }
}

/// Before the step of the annotations is taken, all that the events of a
/// class with annotations yield holds the event of the annotations.
pub proof fn lemma_annotations_in_drain<'reader, 'class>(events: ClassReaderEventsView<'reader, 'class>)
    requires
        events.state <= 7,
        events.annotations.spec_has_annotations(),
    ensures
        spec_class_drain(events).contains(
            Ok(ClassEventView::Annotations(events.annotations.spec_annotations(events.reader))),
        ),
    decreases CLASS_STEPS - events.state,
{
    reveal(spec_class_step);
    let wanted = Ok::<ClassEventView<'reader, 'class>, ClassFileError>(
        ClassEventView::Annotations(events.annotations.spec_annotations(events.reader)),
    );
    let after = spec_class_after(events, events.state);
    let rest = spec_class_drain(after);
    if events.state == 7 {
        let all = seq![wanted] + rest;
        assert(all[0] == wanted);
    } else {
        lemma_annotations_in_drain(after);
        let at = choose|at: int| 0 <= at < rest.len() && rest[at] == wanted;
        match spec_class_step(events, events.state) {
            Some(event) => {
                let all = seq![event] + rest;
                assert(all[at + 1] == wanted);
            },
            None => {},
        }
    }
}

impl<'reader, 'class> ClassReaderEvents<'reader, 'class> {
    /// The header of the class. It takes the interfaces with it.
    fn class_internal(&mut self) -> (r: ClassFileResult<ClassClassEvent>)
        ensures
            crate::error::deep(r) == spec_class_header(old(self).deep_view()),
            r is Ok ==> final(self).deep_view() == (ClassReaderEventsView {
                interfaces: Seq::empty(),
                ..old(self).deep_view()
            }),
            r is Err ==> final(self).deep_view() == old(self).deep_view(),
    {
        let name = self.reader.name()?;
        let super_name = self.reader.super_name()?;
        let signature = self.signature()?;
        let mut interfaces: Vec<JavaText> = Vec::new();
        std::mem::swap(&mut interfaces, &mut self.interfaces);
        assert(self.interfaces.deep_view() =~= Seq::empty());
        Ok(
            ClassClassEvent {
                major_version: self.reader.major_version(),
                minor_version: self.reader.minor_version(),
                access: self.access,
                name,
                signature,
                super_name,
                interfaces,
            },
        )
    }

    /// The generic signature of the class, if it has one.
    pub fn signature(&self) -> (r: ClassFileResult<Option<JavaText>>)
        ensures
            crate::error::deep(r) == spec_signature(self.deep_view()),
    {
        if self.signature_offset == 0 {
            return Ok(None);
        }
        Ok(Some(self.reader.constant_pool().utf8_at(self.signature_offset)?))
    }

    pub fn is_deprecated(&self) -> (r: bool)
        ensures
            r == self.is_deprecated,
    {
        self.is_deprecated
    }

    /// Whether the class is synthetic, by its flags or by its attribute.
    pub fn is_synthetic(&self) -> (r: bool)
        ensures
            r == spec_is_synthetic(self.deep_view()),
    {
        self.access.contains(ClassAccess::SYNTHETIC) || self.has_synthetic_attribute
    }

    /// Where the class came from.
    pub fn source(&self) -> (r: ClassFileResult<Option<ClassSourceEvent>>)
        ensures
            crate::error::deep(r) == spec_source(self.deep_view()),
    {
        let pool = self.reader.constant_pool();
        let buffer = pool.buffer();
        if self.reader.flags().contains(ClassReaderFlags::SKIP_DEBUG) {
            return Ok(None);
        }
        if self.source_offset == 0 && self.source_debug_offset == 0 {
            return Ok(None);
        }
        let source: Option<JavaText> = if self.source_offset == 0 {
            None
        } else {
            Some(pool.utf8_at(self.source_offset)?)
        };
        let debug: Option<JavaText> = if self.source_debug_offset == 0 {
            None
        } else {
            let len: u32 = buffer.read_u32(self.source_debug_offset)?;
            let bytes = buffer.read_bytes(self.source_debug_offset + 4, len as usize)?;
            Some(JavaText::from_modified_utf8(bytes)?)
        };
        Ok(Some(ClassSourceEvent { source, debug }))
    }

    /// The header of the module, if the class is one.
    pub fn module(&self) -> (r: ClassFileResult<Option<ClassModuleEvent<'reader, 'class>>>)
        ensures
            crate::error::deep(r) == spec_module(self.deep_view()),
    {
        if self.module_offset == 0 {
            return Ok(None);
        }
        let pool = self.reader.constant_pool();
        let name = pool.name_at(self.module_offset, ConstantPoolTag::Module)?;
        let access = ModuleAccess::from_bits_retain(pool.buffer().read_u16(self.module_offset + 2)?);
        let version = pool.optional_utf8_at(self.module_offset + 4)?;
        Ok(
            Some(
                ClassModuleEvent {
                    name,
                    access,
                    version,
                    events: ModuleReaderEvents {
                        reader: self.reader,
                        offset: self.module_offset + 6,
                        packages_offset: self.module_packages_offset,
                        main_offset: self.module_main_offset,
                        state: 0,
                    },
                },
            ),
        )
    }

    /// The host of the nest of the class, if the class names one.
    pub fn nest_host(&self) -> (r: ClassFileResult<Option<JavaText>>)
        ensures
            crate::error::deep(r) == spec_nest_host(self.deep_view()),
    {
        if self.nest_host_offset == 0 {
            return Ok(None);
        }
        Ok(Some(self.reader.constant_pool().name_at(self.nest_host_offset, ConstantPoolTag::Class)?))
    }

    /// The class that encloses the class, if the class names one.
    pub fn outer_class(&self) -> (r: ClassFileResult<Option<ClassOuterClassEvent>>)
        ensures
            crate::error::deep(r) == spec_outer_class(self.deep_view()),
    {
        if self.enclosing_method_offset == 0 {
            return Ok(None);
        }
        let pool = self.reader.constant_pool();
        let owner = pool.name_at(self.enclosing_method_offset, ConstantPoolTag::Class)?;
        let method = pool.optional_name_and_type_at(self.enclosing_method_offset + 2)?;
        match method {
            Some(method) => Ok(
                Some(
                    ClassOuterClassEvent {
                        owner,
                        method_name: Some(method.name),
                        method_desc: Some(method.desc),
                    },
                ),
            ),
            None => Ok(Some(ClassOuterClassEvent { owner, method_name: None, method_desc: None })),
        }
    }

    pub fn annotations(&self) -> (r: AnnotationReaderIterator<'reader, 'class>)
        ensures
            r == self.annotations.spec_annotations(self.reader),
    {
        self.annotations.annotations(self.reader)
    }

    pub fn type_annotations(&self) -> (r: TypeAnnotationReaderIterator<'reader, 'class>)
        ensures
            r == self.annotations.spec_type_annotations(self.reader),
    {
        self.annotations.type_annotations(self.reader)
    }

    /// The attributes that the reader does not decode.
    pub fn attributes(&self) -> (r: CustomAttributeReaderIterator<'reader, 'class>)
        ensures
            r.deep_view() == (CustomAttributeReaderIteratorView {
                reader: self.reader,
                index: 0,
                offsets: self.custom_attributes_offsets@,
            }),
    {
        CustomAttributeReaderIterator::new(self.reader, self.custom_attributes_offsets.clone())
    }

    pub fn nest_members(&self) -> (r: ClassesReaderIterator<'reader, 'class>)
        ensures
            r == (ClassesReaderIterator {
                reader: self.reader,
                count: self.nest_members_count,
                remaining: self.nest_members_count,
                offset: self.nest_members_offset,
            }),
    {
        ClassesReaderIterator::new(self.reader, self.nest_members_count, self.nest_members_offset)
    }

    pub fn permitted_subclasses(&self) -> (r: ClassesReaderIterator<'reader, 'class>)
        ensures
            r == (ClassesReaderIterator {
                reader: self.reader,
                count: self.permitted_subclasses_count,
                remaining: self.permitted_subclasses_count,
                offset: self.permitted_subclasses_offset,
            }),
    {
        ClassesReaderIterator::new(
            self.reader,
            self.permitted_subclasses_count,
            self.permitted_subclasses_offset,
        )
    }

    pub fn inner_classes(&self) -> (r: ClassInnerClassesReaderIterator<'reader, 'class>)
        ensures
            r == (ClassInnerClassesReaderIterator {
                reader: self.reader,
                count: self.inner_classes_count,
                remaining: self.inner_classes_count,
                offset: self.inner_classes_offset,
            }),
    {
        ClassInnerClassesReaderIterator::new(self.reader, self.inner_classes_count, self.inner_classes_offset)
    }

    pub fn record_components(&self) -> (r: ClassRecordComponentsReaderIterator<'reader, 'class>)
        ensures
            r == (ClassRecordComponentsReaderIterator {
                reader: self.reader,
                count: self.record_components_count,
                remaining: self.record_components_count,
                offset: self.record_components_offset,
            }),
    {
        ClassRecordComponentsReaderIterator::new(
            self.reader,
            self.record_components_count,
            self.record_components_offset,
        )
    }

    pub fn fields(&self) -> (r: ClassFieldsIterator<'reader, 'class>)
        ensures
            r == (ClassFieldsIterator {
                reader: self.reader,
                count: self.fields_count,
                remaining: self.fields_count,
                offset: self.fields_offset,
            }),
    {
        ClassFieldsIterator::new(self.reader, self.fields_count, self.fields_offset)
    }

    /// The methods of the class. This decodes the table of bootstrap methods
    /// of the class, which the methods share.
    pub fn methods(&self) -> (r: ClassMethodsIterator<'reader, 'class>)
        ensures
            r.deep_view() == (ClassMethodsIteratorView {
                reader: self.reader,
                count: self.methods_count,
                remaining: self.methods_count,
                offset: self.methods_offset,
                bootstrap_methods: spec_compute(self.reader@.pool, self.bootstrap_methods_offset as int),
            }),
    {
        ClassMethodsIterator::new(
            self.reader,
            self.methods_count,
            self.methods_offset,
            BootstrapMethods::new(self.reader, self.bootstrap_methods_offset),
        )
    }

    /// What step `state` yields, if anything.
    fn step(&mut self, state: u8) -> (r: Option<ClassFileResult<ClassEvent<'reader, 'class>>>)
        requires
            state < CLASS_STEPS,
        ensures
            yielded(r) == spec_class_step(old(self).deep_view(), state),
            final(self).deep_view() == (if state == 0 && spec_class_header(old(self).deep_view()) is Ok {
                ClassReaderEventsView { interfaces: Seq::empty(), ..old(self).deep_view() }
            } else {
                old(self).deep_view()
            }),
    {
        reveal(spec_class_step);
        match state {
            0 => match self.class_internal() {
                Ok(header) => Some(Ok(ClassEvent::Class(header))),
                Err(e) => Some(Err(e)),
            },
            1 => if self.is_synthetic() {
                Some(Ok(ClassEvent::Synthetic))
            } else {
                None
            },
            2 => if self.is_deprecated {
                Some(Ok(ClassEvent::Deprecated))
            } else {
                None
            },
            3 => match self.source() {
                Err(e) => Some(Err(e)),
                Ok(None) => None,
                Ok(Some(source)) => Some(Ok(ClassEvent::Source(source))),
            },
            4 => match self.module() {
                Err(e) => Some(Err(e)),
                Ok(None) => None,
                Ok(Some(module)) => Some(Ok(ClassEvent::Module(module))),
            },
            5 => match self.nest_host() {
                Err(e) => Some(Err(e)),
                Ok(None) => None,
                Ok(Some(nest_host)) => Some(Ok(ClassEvent::NestHost(nest_host))),
            },
            6 => match self.outer_class() {
                Err(e) => Some(Err(e)),
                Ok(None) => None,
                Ok(Some(outer_class)) => Some(Ok(ClassEvent::OuterClass(outer_class))),
            },
            7 => if self.annotations.has_annotations() {
                Some(Ok(ClassEvent::Annotations(self.annotations())))
            } else {
                None
            },
            8 => if self.annotations.has_type_annotations() {
                Some(Ok(ClassEvent::TypeAnnotations(self.type_annotations())))
            } else {
                None
            },
            9 => if self.custom_attributes_offsets.len() > 0 {
                Some(Ok(ClassEvent::Attributes(self.attributes())))
            } else {
                None
            },
            10 => if self.nest_members_offset != 0 {
                Some(Ok(ClassEvent::NestMembers(self.nest_members())))
            } else {
                None
            },
            11 => if self.permitted_subclasses_offset != 0 {
                Some(Ok(ClassEvent::PermittedSubclasses(self.permitted_subclasses())))
            } else {
                None
            },
            12 => if self.inner_classes_offset != 0 {
                Some(Ok(ClassEvent::InnerClasses(self.inner_classes())))
            } else {
                None
            },
            13 => if self.record_components_offset != 0 {
                Some(Ok(ClassEvent::Record(self.record_components())))
            } else {
                None
            },
            14 => if self.fields_count != 0 {
                Some(Ok(ClassEvent::Fields(self.fields())))
            } else {
                None
            },
            _ => if self.methods_count != 0 {
                Some(Ok(ClassEvent::Methods(self.methods())))
            } else {
                None
            },
        }
    }

    /// The next event of the class, or nothing behind the last one.
    pub fn next(&mut self) -> (r: Option<ClassFileResult<ClassEvent<'reader, 'class>>>)
        ensures
            yielded(r) == spec_class_next(old(self).deep_view()).0,
            final(self).deep_view() == spec_class_next(old(self).deep_view()).1,
    {
        loop
            invariant
                spec_class_next(old(self).deep_view()) == spec_class_next(self.deep_view()),
            decreases CLASS_STEPS - self.state,
        {
            let state: u8 = self.state;
            if state >= CLASS_STEPS {
                return None;
            }
            let ghost before = self.deep_view();
            let event = self.step(state);
            self.state = state + 1;
            assert(self.deep_view() == spec_class_after(before, state));
            match event {
                Some(event) => {
                    return Some(event);
                },
                None => {},
            }
        }
    }
}

} // verus!
