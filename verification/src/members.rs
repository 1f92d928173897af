//! Fields and record components: their lists, and the events of each.

use crate::access::FieldAccess;
use crate::attribute::KnownAttribute;
use crate::buffer::{spec_advance, spec_read_u16};
use crate::class_reader::ClassReader;
use crate::constant_pool::{
    spec_get, spec_get_type, spec_utf8_at, ConstantPool, ConstantPoolEntry, ConstantPoolEntryView,
    Pool,
};
use crate::error::{ended, parsed, yielded, ClassFileError, ClassFileResult};
use crate::events::{
    ClassFieldEvent, ClassFieldEventView, ClassRecordComponentEvent, ClassRecordComponentEventView,
    FieldEvent, FieldEventView, RecordComponentEvent, RecordComponentEventView,
};
use crate::field::{FieldValue, FieldValueView};
use crate::readers::{
    AnnotationReaderIterator, CustomAttributeReaderIterator, CustomAttributeReaderIteratorView,
    TypeAnnotationReaderIterator,
};
use crate::scan::{
    is_annotation_list, read_attribute_header, spec_attribute_header, AnnotationOffsets,
    AttributeHeader,
};
use vstd::prelude::*;

verus! {

/// The events of one field: what the attributes of the field hold beyond
/// what the field's own event gives.
#[derive(Debug)]
pub struct FieldReaderEvents<'reader, 'class> {
    pub reader: &'reader ClassReader<'class>,
    pub annotations: AnnotationOffsets,
    pub is_deprecated: bool,
    /// Where the attributes start that the reader does not decode.
    pub custom_attributes_offsets: Vec<usize>,
    /// The number of the next step.
    pub state: u8,
}

pub struct FieldReaderEventsView<'reader, 'class> {
    pub reader: &'reader ClassReader<'class>,
    pub annotations: AnnotationOffsets,
    pub is_deprecated: bool,
    pub custom_attributes_offsets: Seq<usize>,
    pub state: u8,
}

impl<'reader, 'class> DeepView for FieldReaderEvents<'reader, 'class> {
    type V = FieldReaderEventsView<'reader, 'class>;

    open spec fn deep_view(&self) -> FieldReaderEventsView<'reader, 'class> {
        FieldReaderEventsView {
            reader: self.reader,
            annotations: self.annotations,
            is_deprecated: self.is_deprecated,
            custom_attributes_offsets: self.custom_attributes_offsets@,
            state: self.state,
        }
    }
}

/// The constant value that the entry in slot `index` gives to a field.
#[verifier::opaque]
pub open spec fn spec_field_constant(pool: Pool, index: u16) -> ClassFileResult<FieldValueView> {
    match spec_get(pool, index) {
        Err(e) => Err(e),
        Ok(entry) => match entry {
            ConstantPoolEntryView::Integer(v) => Ok(FieldValueView::Integer(v)),
            ConstantPoolEntryView::Float(v) => Ok(FieldValueView::Float(v)),
            ConstantPoolEntryView::Long(v) => Ok(FieldValueView::Long(v)),
            ConstantPoolEntryView::Double(v) => Ok(FieldValueView::Double(v)),
            ConstantPoolEntryView::String(v) => Ok(FieldValueView::String(v)),
            _ => match spec_get_type(pool, index) {
                Err(e) => Err(e),
                Ok(tag) => Err(ClassFileError::BadConstantPoolTypeExpectedFieldConstantValue(tag)),
            },
        },
    }
}

/// The field with one more attribute taken in. `ConstantValue`, `Signature`
/// and the four lists of annotations are decoded, `Deprecated` and
/// `Synthetic` are noted, and the start of any other attribute is kept.
pub open spec fn spec_field_attribute<'reader, 'class>(
    pool: Pool,
    field: ClassFieldEventView<'reader, 'class>,
    header: AttributeHeader,
) -> ClassFileResult<ClassFieldEventView<'reader, 'class>> {
    match header.known {
        Some(KnownAttribute::ConstantValue) => match spec_read_u16(pool.data, header.payload as int) {
            Err(e) => Err(e),
            Ok(index) => match spec_field_constant(pool, index) {
                Err(e) => Err(e),
                Ok(value) => Ok(ClassFieldEventView { value: Some(value), ..field }),
            },
        },
        Some(KnownAttribute::Deprecated) => Ok(
            ClassFieldEventView {
                events: FieldReaderEventsView { is_deprecated: true, ..field.events },
                ..field
            },
        ),
        Some(KnownAttribute::Signature) => match spec_utf8_at(pool, header.payload as int) {
            Err(e) => Err(e),
            Ok(signature) => Ok(ClassFieldEventView { signature: Some(signature), ..field }),
        },
        Some(KnownAttribute::Synthetic) => Ok(
            ClassFieldEventView {
                access: FieldAccess { bits: field.access.bits | FieldAccess::SYNTHETIC },
                ..field
            },
        ),
        Some(known) => if is_annotation_list(known) {
            match field.events.annotations.spec_note(pool.data, known, header.payload as int) {
                Err(e) => Err(e),
                Ok(annotations) => Ok(
                    ClassFieldEventView {
                        events: FieldReaderEventsView { annotations, ..field.events },
                        ..field
                    },
                ),
            }
        } else {
            Ok(spec_field_custom(field, header))
        },
        None => Ok(spec_field_custom(field, header)),
    }
}

/// The field with the start of one more attribute kept that the reader does
/// not decode.
pub open spec fn spec_field_custom<'reader, 'class>(
    field: ClassFieldEventView<'reader, 'class>,
    header: AttributeHeader,
) -> ClassFieldEventView<'reader, 'class> {
    ClassFieldEventView {
        events: FieldReaderEventsView {
            custom_attributes_offsets: field.events.custom_attributes_offsets.push(
                (header.payload - 6) as usize,
            ),
            ..field.events
        },
        ..field
    }
}

/// The field with the `remaining` attributes taken in that start at
/// `offset`, and the offset behind them.
pub open spec fn spec_field_attributes_from<'reader, 'class>(
    pool: Pool,
    offset: usize,
    remaining: int,
    field: ClassFieldEventView<'reader, 'class>,
) -> ClassFileResult<(ClassFieldEventView<'reader, 'class>, int)>
    decreases remaining,
{
    if remaining <= 0 {
        Ok((field, offset as int))
    } else {
        match spec_attribute_header(pool, offset as int) {
            Err(e) => Err(e),
            Ok(header) => match spec_field_attribute(pool, field, header) {
                Err(e) => Err(e),
                Ok(next) => spec_field_attributes_from(
                    pool,
                    spec_advance(header.payload as int, header.length as int),
                    remaining - 1,
                    next,
                ),
            },
        }
    }
}

/// The field that starts at `offset`: its access flags, the slots of its
/// name and of its descriptor, the number of its attributes and the
/// attributes. Its events start at their first step.
pub open spec fn spec_field<'reader, 'class>(reader: &'reader ClassReader<'class>, offset: int) -> ClassFileResult<
    (ClassFieldEventView<'reader, 'class>, int),
> {
    let pool = reader@.pool;
    match spec_read_u16(pool.data, offset) {
        Err(e) => Err(e),
        Ok(bits) => match spec_utf8_at(pool, offset + 2) {
            Err(e) => Err(e),
            Ok(name) => match spec_utf8_at(pool, offset + 4) {
                Err(e) => Err(e),
                Ok(desc) => match spec_read_u16(pool.data, offset + 6) {
                    Err(e) => Err(e),
                    Ok(count) => spec_field_attributes_from(
                        pool,
                        (offset + 8) as usize,
                        count as int,
                        ClassFieldEventView {
                            access: FieldAccess { bits },
                            name,
                            desc,
                            signature: None,
                            value: None,
                            events: FieldReaderEventsView {
                                reader,
                                annotations: AnnotationOffsets::spec_none(),
                                is_deprecated: false,
                                custom_attributes_offsets: Seq::empty(),
                                state: 0,
                            },
                        },
                    ),
                },
            },
        },
    }
}

/// The constant value that the entry in slot `index` gives to a field.
fn read_field_constant(pool: &ConstantPool, index: u16) -> (r: ClassFileResult<FieldValue>)
    ensures
        crate::error::deep(r) == spec_field_constant(pool@, index),
{
    reveal(spec_field_constant);
    match pool.get(index)? {
        ConstantPoolEntry::Integer(v) => Ok(FieldValue::Integer(v)),
        ConstantPoolEntry::Float(v) => Ok(FieldValue::Float(v)),
        ConstantPoolEntry::Long(v) => Ok(FieldValue::Long(v)),
        ConstantPoolEntry::Double(v) => Ok(FieldValue::Double(v)),
        ConstantPoolEntry::String(v) => Ok(FieldValue::String(v)),
        _ => Err(ClassFileError::BadConstantPoolTypeExpectedFieldConstantValue(pool.get_type(index)?)),
    }
}

/// Takes one more attribute into the field.
fn read_field_attribute<'reader, 'class>(
    pool: &ConstantPool,
    field: ClassFieldEvent<'reader, 'class>,
    header: &AttributeHeader,
) -> (r: ClassFileResult<ClassFieldEvent<'reader, 'class>>)
    requires
        6 <= header.payload <= pool@.data.len() <= usize::MAX,
    ensures
        crate::error::deep(r) == spec_field_attribute(pool@, field.deep_view(), *header),
{
    let mut field = field;
    match header.known {
        Some(KnownAttribute::ConstantValue) => {
            let index: u16 = pool.buffer().read_u16(header.payload)?;
            field.value = Some(read_field_constant(pool, index)?);
        },
        Some(KnownAttribute::Deprecated) => {
            field.events.is_deprecated = true;
        },
        Some(KnownAttribute::Signature) => {
            field.signature = Some(pool.utf8_at(header.payload)?);
        },
        Some(KnownAttribute::Synthetic) => {
            field.access.insert(FieldAccess::SYNTHETIC);
        },
        Some(KnownAttribute::RuntimeVisibleAnnotations) => {
            field.events.annotations.note(pool, KnownAttribute::RuntimeVisibleAnnotations, header.payload)?;
        },
        Some(KnownAttribute::RuntimeInvisibleAnnotations) => {
            field.events.annotations.note(
                pool,
                KnownAttribute::RuntimeInvisibleAnnotations,
                header.payload,
            )?;
        },
        Some(KnownAttribute::RuntimeVisibleTypeAnnotations) => {
            field.events.annotations.note(
                pool,
                KnownAttribute::RuntimeVisibleTypeAnnotations,
                header.payload,
            )?;
        },
        Some(KnownAttribute::RuntimeInvisibleTypeAnnotations) => {
            field.events.annotations.note(
                pool,
                KnownAttribute::RuntimeInvisibleTypeAnnotations,
                header.payload,
            )?;
        },
        _ => {
            field.events.custom_attributes_offsets.push(header.payload - 6);
        },
    }
    Ok(field)
}

/// Decodes the field that starts at `offset`.
pub fn read_field<'reader, 'class>(reader: &'reader ClassReader<'class>, offset: usize) -> (r: ClassFileResult<
    (ClassFieldEvent<'reader, 'class>, usize),
>)
    ensures
        parsed(r) == spec_field(reader, offset as int),
{
    let pool = reader.constant_pool();
    let buffer = pool.buffer();
    let access = FieldAccess::from_bits_retain(buffer.read_u16(offset)?);
    let name = pool.utf8_at(offset + 2)?;
    let desc = pool.utf8_at(offset + 4)?;
    let attribute_count: u16 = buffer.read_u16(offset + 6)?;
    let mut field = ClassFieldEvent {
        access,
        name,
        desc,
        signature: None,
        value: None,
        events: FieldReaderEvents {
            reader,
            annotations: AnnotationOffsets::none(),
            is_deprecated: false,
            custom_attributes_offsets: Vec::new(),
            state: 0,
        },
    };
    let mut at: usize = offset + 8;
    let mut i: u16 = 0;
    while i < attribute_count
        invariant
            i <= attribute_count,
            pool@ == reader@.pool,
            spec_field(reader, offset as int) == spec_field_attributes_from(
                pool@,
                at,
                attribute_count - i,
                field.deep_view(),
            ),
        decreases attribute_count - i,
    {
        let header = read_attribute_header(pool, at)?;
        field = read_field_attribute(pool, field, &header)?;
        at = buffer.advance(header.payload, header.length as usize);
        i = i + 1;
    }
    Ok((field, at))
}

/// Walks the fields of a class.
#[derive(Debug, Copy, Clone)]
pub struct ClassFieldsIterator<'reader, 'class> {
    pub reader: &'reader ClassReader<'class>,
    /// The number of fields.
    pub count: u16,
    /// The number of fields that are still to come.
    pub remaining: u16,
    /// Where the next field starts.
    pub offset: usize,
}

impl<'reader, 'class> ClassFieldsIterator<'reader, 'class> {
    /// A reader of the `count` fields that start at `offset`.
    pub fn new(reader: &'reader ClassReader<'class>, count: u16, offset: usize) -> (r: Self)
        ensures
            r == (Self { reader, count, remaining: count, offset }),
    {
        Self { reader, count, remaining: count, offset }
    }

    /// The next field, or nothing behind the last one. A field that fails to
    /// decode counts as read, and leaves the reader where it stood.
    pub fn next(&mut self) -> (r: Option<ClassFileResult<ClassFieldEvent<'reader, 'class>>>)
        ensures
            final(self).reader == old(self).reader,
            final(self).count == old(self).count,
            old(self).remaining == 0 ==> r is None && *final(self) == *old(self),
            old(self).remaining > 0 ==> r is Some && final(self).remaining == old(self).remaining - 1
                && ended(r->Some_0, final(self).offset) == spec_field(
                old(self).reader,
                old(self).offset as int,
            ) && (r->Some_0 is Err ==> final(self).offset == old(self).offset),
    {
        if self.remaining == 0 {
            return None;
        }
        self.remaining = self.remaining - 1;
        match read_field(self.reader, self.offset) {
            Ok((item, end)) => {
                self.offset = end;
                Some(Ok(item))
            },
            Err(e) => Some(Err(e)),
        }
    }

    /// The number of fields.
    pub fn len(&self) -> (n: usize)
        ensures
            n == self.count,
    {
        self.count as usize
    }
}

/// What step `state` of the events of a field yields, if anything: the
/// `Deprecated` marker, the annotations, the type annotations and the other
/// attributes, in this order, each only where the field has it.
pub open spec fn spec_field_step<'reader, 'class>(
    events: FieldReaderEventsView<'reader, 'class>,
    state: u8,
) -> Option<FieldEventView<'reader, 'class>> {
    if state == 0 && events.is_deprecated {
        Some(FieldEventView::Deprecated)
    } else if state == 1 && events.annotations.spec_has_annotations() {
        Some(FieldEventView::Annotations(events.annotations.spec_annotations(events.reader)))
    } else if state == 2 && events.annotations.spec_has_type_annotations() {
        Some(FieldEventView::TypeAnnotations(events.annotations.spec_type_annotations(events.reader)))
    } else if state == 3 && events.custom_attributes_offsets.len() > 0 {
        Some(
            FieldEventView::Attributes(
                CustomAttributeReaderIteratorView {
                    reader: events.reader,
                    index: 0,
                    offsets: events.custom_attributes_offsets,
                },
            ),
        )
    } else {
        None
    }
}

/// The number of steps of the events of a field.
pub const FIELD_STEPS: u8 = 4;

/// The next event from step `state` on, and the step that follows it.
pub open spec fn spec_field_next<'reader, 'class>(
    events: FieldReaderEventsView<'reader, 'class>,
    state: u8,
) -> (Option<FieldEventView<'reader, 'class>>, u8)
    decreases FIELD_STEPS - state,
{
    if state >= FIELD_STEPS {
        (None, state)
    } else {
        match spec_field_step(events, state) {
            Some(event) => (Some(event), (state + 1) as u8),
            None => spec_field_next(events, (state + 1) as u8),
        }
    }
}

impl<'reader, 'class> FieldReaderEvents<'reader, 'class> {
    pub fn is_deprecated(&self) -> (r: bool)
        ensures
            r == self.is_deprecated,
    {
        self.is_deprecated
    }

    pub fn annotations(&self) -> (r: AnnotationReaderIterator<'reader, 'class>)
        ensures
            r == self.annotations.spec_annotations(self.reader),
    {
        self.annotations.annotations(self.reader)
    }

    pub fn type_annotations(&self) -> (r: TypeAnnotationReaderIterator<'reader, 'class>)
        ensures
            r == self.annotations.spec_type_annotations(self.reader),
    {
        self.annotations.type_annotations(self.reader)
    }

    /// The attributes that the reader does not decode.
    pub fn attributes(&self) -> (r: CustomAttributeReaderIterator<'reader, 'class>)
        ensures
            r.deep_view() == (CustomAttributeReaderIteratorView {
                reader: self.reader,
                index: 0,
                offsets: self.custom_attributes_offsets@,
            }),
    {
        CustomAttributeReaderIterator::new(self.reader, self.custom_attributes_offsets.clone())
    }

    /// What step `state` yields, if anything.
    fn step(&self, state: u8) -> (r: Option<FieldEvent<'reader, 'class>>)
        ensures
            r.deep_view() == spec_field_step(self.deep_view(), state),
    {
        if state == 0 && self.is_deprecated {
            Some(FieldEvent::Deprecated)
        } else if state == 1 && self.annotations.has_annotations() {
            Some(FieldEvent::Annotations(self.annotations()))
        } else if state == 2 && self.annotations.has_type_annotations() {
            Some(FieldEvent::TypeAnnotations(self.type_annotations()))
        } else if state == 3 && self.custom_attributes_offsets.len() > 0 {
            Some(FieldEvent::Attributes(self.attributes()))
        } else {
            None
        }
    }

    /// The next event of the field, or nothing behind the last one. No event
    /// of a field fails.
    pub fn next(&mut self) -> (r: Option<ClassFileResult<FieldEvent<'reader, 'class>>>)
        ensures
            final(self).deep_view() == (FieldReaderEventsView {
                state: spec_field_next(old(self).deep_view(), old(self).state).1,
                ..old(self).deep_view()
            }),
            yielded(r) == match spec_field_next(old(self).deep_view(), old(self).state).0 {
                Some(event) => Some(Ok::<FieldEventView<'reader, 'class>, ClassFileError>(event)),
                None => None,
            },
    {
        let ghost start = self.deep_view();
        let ghost first = self.state;
        loop
            invariant
                start == old(self).deep_view(),
                first == old(self).state,
                self.deep_view() == (FieldReaderEventsView { state: self.state, ..start }),
                spec_field_next(start, first) == spec_field_next(start, self.state),
            decreases FIELD_STEPS - self.state,
        {
            let state: u8 = self.state;
            if state >= FIELD_STEPS {
                return None;
            }
            self.state = state + 1;
            proof {
                assert(spec_field_step(self.deep_view(), state) == spec_field_step(start, state));
            }
            match self.step(state) {
                Some(event) => {
                    return Some(Ok(event));
                },
                None => {},
            }
        }
    }
}

/// The events of one record component.
#[derive(Debug)]
pub struct RecordComponentReaderEvents<'reader, 'class> {
    pub reader: &'reader ClassReader<'class>,
    pub annotations: AnnotationOffsets,
    /// Where the attributes start that the reader does not decode.
    pub custom_attributes_offsets: Vec<usize>,
    /// The number of the next step.
    pub state: u8,
}

pub struct RecordComponentReaderEventsView<'reader, 'class> {
    pub reader: &'reader ClassReader<'class>,
    pub annotations: AnnotationOffsets,
    pub custom_attributes_offsets: Seq<usize>,
    pub state: u8,
}

impl<'reader, 'class> DeepView for RecordComponentReaderEvents<'reader, 'class> {
    type V = RecordComponentReaderEventsView<'reader, 'class>;

    open spec fn deep_view(&self) -> RecordComponentReaderEventsView<'reader, 'class> {
        RecordComponentReaderEventsView {
            reader: self.reader,
            annotations: self.annotations,
            custom_attributes_offsets: self.custom_attributes_offsets@,
            state: self.state,
        }
    }
}

/// The record component with one more attribute taken in. `Signature` and
/// the four lists of annotations are decoded, and the start of any other
/// attribute is kept.
pub open spec fn spec_component_attribute<'reader, 'class>(
    pool: Pool,
    component: ClassRecordComponentEventView<'reader, 'class>,
    header: AttributeHeader,
) -> ClassFileResult<ClassRecordComponentEventView<'reader, 'class>> {
    match header.known {
        Some(KnownAttribute::Signature) => match spec_utf8_at(pool, header.payload as int) {
            Err(e) => Err(e),
            Ok(signature) => Ok(ClassRecordComponentEventView { signature: Some(signature), ..component }),
        },
        Some(known) => if is_annotation_list(known) {
            match component.events.annotations.spec_note(pool.data, known, header.payload as int) {
                Err(e) => Err(e),
                Ok(annotations) => Ok(
                    ClassRecordComponentEventView {
                        events: RecordComponentReaderEventsView { annotations, ..component.events },
                        ..component
                    },
                ),
            }
        } else {
            Ok(spec_component_custom(component, header))
        },
        None => Ok(spec_component_custom(component, header)),
    }
}

/// The record component with the start of one more attribute kept that the
/// reader does not decode.
pub open spec fn spec_component_custom<'reader, 'class>(
    component: ClassRecordComponentEventView<'reader, 'class>,
    header: AttributeHeader,
) -> ClassRecordComponentEventView<'reader, 'class> {
    ClassRecordComponentEventView {
        events: RecordComponentReaderEventsView {
            custom_attributes_offsets: component.events.custom_attributes_offsets.push(
                (header.payload - 6) as usize,
            ),
            ..component.events
        },
        ..component
    }
}

/// The record component with the `remaining` attributes taken in that start
/// at `offset`, and the offset behind them.
pub open spec fn spec_component_attributes_from<'reader, 'class>(
    pool: Pool,
    offset: usize,
    remaining: int,
    component: ClassRecordComponentEventView<'reader, 'class>,
) -> ClassFileResult<(ClassRecordComponentEventView<'reader, 'class>, int)>
    decreases remaining,
{
    if remaining <= 0 {
        Ok((component, offset as int))
    } else {
        match spec_attribute_header(pool, offset as int) {
            Err(e) => Err(e),
            Ok(header) => match spec_component_attribute(pool, component, header) {
                Err(e) => Err(e),
                Ok(next) => spec_component_attributes_from(
                    pool,
                    spec_advance(header.payload as int, header.length as int),
                    remaining - 1,
                    next,
                ),
            },
        }
    }
}

/// The record component that starts at `offset`: the slots of its name and
/// of its descriptor, the number of its attributes and the attributes.
pub open spec fn spec_component<'reader, 'class>(
    reader: &'reader ClassReader<'class>,
    offset: int,
) -> ClassFileResult<(ClassRecordComponentEventView<'reader, 'class>, int)> {
    let pool = reader@.pool;
    match spec_utf8_at(pool, offset) {
        Err(e) => Err(e),
        Ok(name) => match spec_utf8_at(pool, offset + 2) {
            Err(e) => Err(e),
            Ok(desc) => match spec_read_u16(pool.data, offset + 4) {
                Err(e) => Err(e),
                Ok(count) => spec_component_attributes_from(
                    pool,
                    (offset + 6) as usize,
                    count as int,
                    ClassRecordComponentEventView {
                        name,
                        desc,
                        signature: None,
                        events: RecordComponentReaderEventsView {
                            reader,
                            annotations: AnnotationOffsets::spec_none(),
                            custom_attributes_offsets: Seq::empty(),
                            state: 0,
                        },
                    },
                ),
            },
        },
    }
}

/// Takes one more attribute into the record component.
fn read_component_attribute<'reader, 'class>(
    pool: &ConstantPool,
    component: ClassRecordComponentEvent<'reader, 'class>,
    header: &AttributeHeader,
) -> (r: ClassFileResult<ClassRecordComponentEvent<'reader, 'class>>)
    requires
        6 <= header.payload <= pool@.data.len() <= usize::MAX,
    ensures
        crate::error::deep(r) == spec_component_attribute(pool@, component.deep_view(), *header),
{
    let mut component = component;
    match header.known {
        Some(KnownAttribute::Signature) => {
            component.signature = Some(pool.utf8_at(header.payload)?);
        },
        Some(KnownAttribute::RuntimeVisibleAnnotations) => {
            component.events.annotations.note(
                pool,
                KnownAttribute::RuntimeVisibleAnnotations,
                header.payload,
            )?;
        },
        Some(KnownAttribute::RuntimeInvisibleAnnotations) => {
            component.events.annotations.note(
                pool,
                KnownAttribute::RuntimeInvisibleAnnotations,
                header.payload,
            )?;
        },
        Some(KnownAttribute::RuntimeVisibleTypeAnnotations) => {
            component.events.annotations.note(
                pool,
                KnownAttribute::RuntimeVisibleTypeAnnotations,
                header.payload,
            )?;
        },
        Some(KnownAttribute::RuntimeInvisibleTypeAnnotations) => {
            component.events.annotations.note(
                pool,
                KnownAttribute::RuntimeInvisibleTypeAnnotations,
                header.payload,
            )?;
        },
        _ => {
            component.events.custom_attributes_offsets.push(header.payload - 6);
        },
    }
    Ok(component)
}

/// Decodes the record component that starts at `offset`.
pub fn read_component<'reader, 'class>(reader: &'reader ClassReader<'class>, offset: usize) -> (r:
    ClassFileResult<(ClassRecordComponentEvent<'reader, 'class>, usize)>)
    ensures
        parsed(r) == spec_component(reader, offset as int),
{
    let pool = reader.constant_pool();
    let buffer = pool.buffer();
    let name = pool.utf8_at(offset)?;
    let desc = pool.utf8_at(offset + 2)?;
    let attribute_count: u16 = buffer.read_u16(offset + 4)?;
    let mut component = ClassRecordComponentEvent {
        name,
        desc,
        signature: None,
        events: RecordComponentReaderEvents {
            reader,
            annotations: AnnotationOffsets::none(),
            custom_attributes_offsets: Vec::new(),
            state: 0,
        },
    };
    let mut at: usize = offset + 6;
    let mut i: u16 = 0;
    while i < attribute_count
        invariant
            i <= attribute_count,
            pool@ == reader@.pool,
            spec_component(reader, offset as int) == spec_component_attributes_from(
                pool@,
                at,
                attribute_count - i,
                component.deep_view(),
            ),
        decreases attribute_count - i,
    {
        let header = read_attribute_header(pool, at)?;
        component = read_component_attribute(pool, component, &header)?;
        at = buffer.advance(header.payload, header.length as usize);
        i = i + 1;
    }
    Ok((component, at))
}

/// Walks the components of a record.
#[derive(Debug, Copy, Clone)]
pub struct ClassRecordComponentsReaderIterator<'reader, 'class> {
    pub reader: &'reader ClassReader<'class>,
    /// The number of components.
    pub count: u16,
    /// The number of components that are still to come.
    pub remaining: u16,
    /// Where the next component starts.
    pub offset: usize,
}

impl<'reader, 'class> ClassRecordComponentsReaderIterator<'reader, 'class> {
    /// A reader of the `count` components that start at `offset`.
    pub fn new(reader: &'reader ClassReader<'class>, count: u16, offset: usize) -> (r: Self)
        ensures
            r == (Self { reader, count, remaining: count, offset }),
    {
        Self { reader, count, remaining: count, offset }
    }

    /// The next component, or nothing behind the last one. A component that
    /// fails to decode counts as read, and leaves the reader where it stood.
    pub fn next(&mut self) -> (r: Option<ClassFileResult<ClassRecordComponentEvent<'reader, 'class>>>)
        ensures
            final(self).reader == old(self).reader,
            final(self).count == old(self).count,
            old(self).remaining == 0 ==> r is None && *final(self) == *old(self),
            old(self).remaining > 0 ==> r is Some && final(self).remaining == old(self).remaining - 1
                && ended(r->Some_0, final(self).offset) == spec_component(
                old(self).reader,
                old(self).offset as int,
            ) && (r->Some_0 is Err ==> final(self).offset == old(self).offset),
    {
        if self.remaining == 0 {
            return None;
        }
        self.remaining = self.remaining - 1;
        match read_component(self.reader, self.offset) {
            Ok((item, end)) => {
                self.offset = end;
                Some(Ok(item))
            },
            Err(e) => Some(Err(e)),
        }
    }

    /// The number of components.
    pub fn len(&self) -> (n: usize)
        ensures
            n == self.count,
    {
        self.count as usize
    }
}

/// What step `state` of the events of a record component yields, if
/// anything: the annotations, the type annotations and the other attributes,
/// in this order, each only where the component has it.
pub open spec fn spec_component_step<'reader, 'class>(
    events: RecordComponentReaderEventsView<'reader, 'class>,
    state: u8,
) -> Option<RecordComponentEventView<'reader, 'class>> {
    if state == 0 && events.annotations.spec_has_annotations() {
        Some(RecordComponentEventView::Annotations(events.annotations.spec_annotations(events.reader)))
    } else if state == 1 && events.annotations.spec_has_type_annotations() {
        Some(
            RecordComponentEventView::TypeAnnotations(
                events.annotations.spec_type_annotations(events.reader),
            ),
        )
    } else if state == 2 && events.custom_attributes_offsets.len() > 0 {
        Some(
            RecordComponentEventView::Attributes(
                CustomAttributeReaderIteratorView {
                    reader: events.reader,
                    index: 0,
                    offsets: events.custom_attributes_offsets,
                },
            ),
        )
    } else {
        None
    }
}

/// The number of steps of the events of a record component.
pub const COMPONENT_STEPS: u8 = 3;

/// The next event from step `state` on, and the step that follows it.
pub open spec fn spec_component_next<'reader, 'class>(
    events: RecordComponentReaderEventsView<'reader, 'class>,
    state: u8,
) -> (Option<RecordComponentEventView<'reader, 'class>>, u8)
    decreases COMPONENT_STEPS - state,
{
    if state >= COMPONENT_STEPS {
        (None, state)
    } else {
        match spec_component_step(events, state) {
            Some(event) => (Some(event), (state + 1) as u8),
            None => spec_component_next(events, (state + 1) as u8),
        }
    }
}

impl<'reader, 'class> RecordComponentReaderEvents<'reader, 'class> {
    pub fn annotations(&self) -> (r: AnnotationReaderIterator<'reader, 'class>)
        ensures
            r == self.annotations.spec_annotations(self.reader),
    {
        self.annotations.annotations(self.reader)
    }

    pub fn type_annotations(&self) -> (r: TypeAnnotationReaderIterator<'reader, 'class>)
        ensures
            r == self.annotations.spec_type_annotations(self.reader),
    {
        self.annotations.type_annotations(self.reader)
    }

    /// The attributes that the reader does not decode.
    pub fn attributes(&self) -> (r: CustomAttributeReaderIterator<'reader, 'class>)
        ensures
            r.deep_view() == (CustomAttributeReaderIteratorView {
                reader: self.reader,
                index: 0,
                offsets: self.custom_attributes_offsets@,
            }),
    {
        CustomAttributeReaderIterator::new(self.reader, self.custom_attributes_offsets.clone())
    }

    /// What step `state` yields, if anything.
    fn step(&self, state: u8) -> (r: Option<RecordComponentEvent<'reader, 'class>>)
        ensures
            r.deep_view() == spec_component_step(self.deep_view(), state),
    {
        if state == 0 && self.annotations.has_annotations() {
            Some(RecordComponentEvent::Annotations(self.annotations()))
        } else if state == 1 && self.annotations.has_type_annotations() {
            Some(RecordComponentEvent::TypeAnnotations(self.type_annotations()))
        } else if state == 2 && self.custom_attributes_offsets.len() > 0 {
            Some(RecordComponentEvent::Attributes(self.attributes()))
        } else {
            None
        }
    }

    /// The next event of the component, or nothing behind the last one. No
    /// event of a component fails.
    pub fn next(&mut self) -> (r: Option<ClassFileResult<RecordComponentEvent<'reader, 'class>>>)
        ensures
            final(self).deep_view() == (RecordComponentReaderEventsView {
                state: spec_component_next(old(self).deep_view(), old(self).state).1,
                ..old(self).deep_view()
            }),
            yielded(r) == match spec_component_next(old(self).deep_view(), old(self).state).0 {
                Some(event) => Some(Ok::<RecordComponentEventView<'reader, 'class>, ClassFileError>(event)),
                None => None,
            },
    {
        let ghost start = self.deep_view();
        let ghost first = self.state;
        loop
            invariant
                start == old(self).deep_view(),
                first == old(self).state,
                self.deep_view() == (RecordComponentReaderEventsView { state: self.state, ..start }),
                spec_component_next(start, first) == spec_component_next(start, self.state),
            decreases COMPONENT_STEPS - self.state,
        {
            let state: u8 = self.state;
            if state >= COMPONENT_STEPS {
                return None;
            }
            self.state = state + 1;
            proof {
                assert(spec_component_step(self.deep_view(), state) == spec_component_step(start, state));
            }
            match self.step(state) {
                Some(event) => {
                    return Some(Ok(event));
                },
                None => {},
            }
        }
    }
}

} // verus!
