//! Methods: their list, and the events of each.

use crate::access::{ClassReaderFlags, MethodAccess};
use crate::annotations::{read_annotation, read_annotation_value, spec_annotation, spec_annotation_value};
use crate::attribute::KnownAttribute;
use crate::bootstrap::{BootstrapMethod, BootstrapMethodView};
use crate::buffer::{spec_advance, spec_read_u16, spec_read_u8};
use crate::class_reader::ClassReader;
use crate::code::{
    code_wf, spec_all_insns, spec_code_data, spec_is_insn, CodeData, CodeDataView, Labels,
};
use crate::code::labels_sound;
use crate::label::{spec_label_after, LabelCreatorView};
use crate::constant_pool::{spec_names_from, spec_utf8_at, ConstantPool, ConstantPoolTag, Pool};
use crate::error::{ended, parsed, yielded, ClassFileError, ClassFileResult};
use crate::events::{
    ClassMethodEvent, ClassMethodEventView, MethodAnnotableParameterCountEvent, MethodEvent,
    MethodEventView, MethodMaxsEvent, MethodParameterAnnotationEvent,
    MethodParameterAnnotationEventView,
};
use crate::readers::{
    AnnotationReaderIterator, CustomAttributeReaderIterator, CustomAttributeReaderIteratorView,
    MethodParameterReaderIterator, TypeAnnotationReaderIterator, WrapWithResultReaderIterator,
};
use crate::scan::{
    is_annotation_list, read_attribute_header, spec_attribute_header, AnnotationOffsets,
    AttributeHeader,
};
use std::sync::Arc;
use vstd::prelude::*;

verus! {

/// The table of bootstrap methods of a class, or the error of decoding it,
/// shared by the methods of the class.
#[derive(Debug)]
pub struct BootstrapMethods {
    table: Arc<ClassFileResult<Vec<BootstrapMethod>>>,
}

impl DeepView for BootstrapMethods {
    type V = ClassFileResult<Seq<BootstrapMethodView>>;

    closed spec fn deep_view(&self) -> ClassFileResult<Seq<BootstrapMethodView>> {
        crate::error::deep(*self.table)
    }
}

/// The bootstrap method with index `index` of a table, or the error of the
/// table, or the error of an index that the table does not have.
pub open spec fn spec_bootstrap(table: ClassFileResult<Seq<BootstrapMethodView>>, index: u16) -> ClassFileResult<
    BootstrapMethodView,
> {
    match table {
        Err(e) => Err(e),
        Ok(all) => if index < all.len() {
            Ok(all[index as int])
        } else {
            Err(ClassFileError::BootstrapMethodOutOfBounds { index, len: all.len() as u16 })
        },
    }
}

/// Calls `Arc::clone`: the new pointer leads to the same table.
#[verifier::external_body]
fn share(table: &Arc<ClassFileResult<Vec<BootstrapMethod>>>) -> (r: Arc<ClassFileResult<Vec<BootstrapMethod>>>)
    ensures
        r == table,
{
    Arc::clone(table)
}

impl BootstrapMethods {
    /// The table that the attribute at `offset` of the class of `reader`
    /// gives, decoded and resolved now. An error of the table is kept and
    /// comes out each time the table is asked.
    pub fn new(reader: &ClassReader, offset: usize) -> (r: Self)
        ensures
            r.deep_view() == crate::bootstrap::spec_compute(reader@.pool, offset as int),
    {
        BootstrapMethods { table: Arc::new(crate::bootstrap::compute(reader.constant_pool(), offset)) }
    }

    /// Another holder of the same table.
    pub fn clone(&self) -> (r: Self)
        ensures
            r == *self,
    {
        BootstrapMethods { table: share(&self.table) }
    }

    /// The bootstrap method with index `index`.
    pub fn get(&self, index: u16) -> (r: ClassFileResult<&BootstrapMethod>)
        ensures
            match spec_bootstrap(self.deep_view(), index) {
                Ok(method) => r is Ok && r->Ok_0.deep_view() == method,
                Err(e) => r == Err::<&BootstrapMethod, ClassFileError>(e),
            },
    {
        match &*self.table {
            Err(e) => Err(*e),
            Ok(all) => {
                if (index as usize) < all.len() {
                    Ok(&all[index as usize])
                } else {
                    Err(
                        ClassFileError::BootstrapMethodOutOfBounds {
                            index,
                            len: #[verifier::truncate]
                            (all.len() as u16),
                        },
                    )
                }
            },
        }
    }
}

/// The events of one method.
#[derive(Debug)]
pub struct MethodReaderEvents<'reader, 'class> {
    pub reader: &'reader ClassReader<'class>,
    pub annotation_default_offset: usize,
    pub code_offset: usize,
    pub annotations: AnnotationOffsets,
    pub invisible_parameter_annotations_offset: usize,
    pub visible_parameter_annotations_offset: usize,
    pub is_deprecated: bool,
    pub parameters_count: u16,
    pub parameters_offset: usize,
    /// Where the attributes start that the reader does not decode.
    pub custom_attribute_offsets: Vec<usize>,
    /// The decoded code, from the event that opens the code on.
    pub code_data: Option<CodeData<'reader, 'class>>,
    pub bootstrap_methods: BootstrapMethods,
    /// The number of the next step.
    pub state: u8,
    /// The offset in the code whose events are being yielded.
    pub code_index: usize,
    /// The index of the method among the methods of its class.
    pub method_index: u16,
}

pub struct MethodReaderEventsView<'reader, 'class> {
    pub reader: &'reader ClassReader<'class>,
    pub annotation_default_offset: usize,
    pub code_offset: usize,
    pub annotations: AnnotationOffsets,
    pub invisible_parameter_annotations_offset: usize,
    pub visible_parameter_annotations_offset: usize,
    pub is_deprecated: bool,
    pub parameters_count: u16,
    pub parameters_offset: usize,
    pub custom_attribute_offsets: Seq<usize>,
    pub code_data: Option<CodeDataView<'reader, 'class>>,
    pub bootstrap_methods: ClassFileResult<Seq<BootstrapMethodView>>,
    pub state: u8,
    pub code_index: usize,
    pub method_index: u16,
}

impl<'reader, 'class> DeepView for MethodReaderEvents<'reader, 'class> {
    type V = MethodReaderEventsView<'reader, 'class>;

    open spec fn deep_view(&self) -> MethodReaderEventsView<'reader, 'class> {
        MethodReaderEventsView {
            reader: self.reader,
            annotation_default_offset: self.annotation_default_offset,
            code_offset: self.code_offset,
            annotations: self.annotations,
            invisible_parameter_annotations_offset: self.invisible_parameter_annotations_offset,
            visible_parameter_annotations_offset: self.visible_parameter_annotations_offset,
            is_deprecated: self.is_deprecated,
            parameters_count: self.parameters_count,
            parameters_offset: self.parameters_offset,
            custom_attribute_offsets: self.custom_attribute_offsets@,
            code_data: self.code_data.deep_view(),
            bootstrap_methods: self.bootstrap_methods.deep_view(),
            state: self.state,
            code_index: self.code_index,
            method_index: self.method_index,
        }
    }
}

/// Walks the methods of a class.
#[derive(Debug)]
pub struct ClassMethodsIterator<'reader, 'class> {
    pub reader: &'reader ClassReader<'class>,
    /// The number of methods.
    pub count: u16,
    /// The number of methods that are still to come.
    pub remaining: u16,
    /// Where the next method starts.
    pub offset: usize,
    pub bootstrap_methods: BootstrapMethods,
}

pub struct ClassMethodsIteratorView<'reader, 'class> {
    pub reader: &'reader ClassReader<'class>,
    pub count: u16,
    pub remaining: u16,
    pub offset: usize,
    pub bootstrap_methods: ClassFileResult<Seq<BootstrapMethodView>>,
}

impl<'reader, 'class> DeepView for ClassMethodsIterator<'reader, 'class> {
    type V = ClassMethodsIteratorView<'reader, 'class>;

    open spec fn deep_view(&self) -> ClassMethodsIteratorView<'reader, 'class> {
        ClassMethodsIteratorView {
            reader: self.reader,
            count: self.count,
            remaining: self.remaining,
            offset: self.offset,
            bootstrap_methods: self.bootstrap_methods.deep_view(),
        }
    }
}

/// Walks the annotations on the parameters of a method: those of the visible
/// list first, parameter by parameter, then those of the invisible list.
#[derive(Debug, Copy, Clone)]
pub struct MethodParameterAnnotationsReaderIterator<'reader, 'class> {
    pub reader: &'reader ClassReader<'class>,
    pub visible_offset: usize,
    pub invisible_offset: usize,
    pub param_count: u8,
    pub param_index: u8,
    pub annotations_remaining: u16,
    pub state: u8,
}

/// The method with one more attribute taken in. `Code` is kept unless code
/// is skipped, `MethodParameters`, whose payload starts with the number of
/// parameters in one byte, unless debug information is skipped;
/// `Exceptions`, `Signature` and the four lists of annotations are decoded;
/// `AnnotationDefault` and the two lists of parameter annotations are kept
/// for their events; `Deprecated` and `Synthetic` are noted; the start of any
/// other attribute is kept.
#[verifier::opaque]
pub open spec fn spec_method_attribute<'reader, 'class>(
    pool: Pool,
    flags: ClassReaderFlags,
    method: ClassMethodEventView<'reader, 'class>,
    header: AttributeHeader,
) -> ClassFileResult<ClassMethodEventView<'reader, 'class>> {
    let payload = header.payload as int;
    let events = method.events;
    match header.known {
        Some(KnownAttribute::AnnotationDefault) => Ok(
            ClassMethodEventView {
                events: MethodReaderEventsView { annotation_default_offset: header.payload, ..events },
                ..method
            },
        ),
        Some(KnownAttribute::Code) => if flags.spec_contains(ClassReaderFlags::SKIP_CODE) {
            Ok(method)
        } else {
            Ok(
                ClassMethodEventView {
                    events: MethodReaderEventsView { code_offset: header.payload, ..events },
                    ..method
                },
            )
        },
        Some(KnownAttribute::Deprecated) => Ok(
            ClassMethodEventView { events: MethodReaderEventsView { is_deprecated: true, ..events }, ..method },
        ),
        Some(KnownAttribute::Exceptions) => match spec_read_u16(pool.data, payload) {
            Err(e) => Err(e),
            Ok(count) => match spec_names_from(
                pool,
                payload + 2,
                count as int,
                ConstantPoolTag::Class,
                Seq::empty(),
            ) {
                Err(e) => Err(e),
                Ok(names) => Ok(ClassMethodEventView { exceptions: method.exceptions + names.0, ..method }),
            },
        },
        Some(KnownAttribute::MethodParameters) => if flags.spec_contains(ClassReaderFlags::SKIP_DEBUG) {
            Ok(method)
        } else {
            match spec_read_u8(pool.data, payload) {
                Err(e) => Err(e),
                Ok(count) => Ok(
                    ClassMethodEventView {
                        events: MethodReaderEventsView {
                            parameters_count: count as u16,
                            parameters_offset: (payload + 1) as usize,
                            ..events
                        },
                        ..method
                    },
                ),
            }
        },
        Some(KnownAttribute::RuntimeInvisibleParameterAnnotations) => Ok(
            ClassMethodEventView {
                events: MethodReaderEventsView {
                    invisible_parameter_annotations_offset: header.payload,
                    ..events
                },
                ..method
            },
        ),
        Some(KnownAttribute::RuntimeVisibleParameterAnnotations) => Ok(
            ClassMethodEventView {
                events: MethodReaderEventsView {
                    visible_parameter_annotations_offset: header.payload,
                    ..events
                },
                ..method
            },
        ),
        Some(KnownAttribute::Signature) => match spec_utf8_at(pool, payload) {
            Err(e) => Err(e),
            Ok(signature) => Ok(ClassMethodEventView { signature: Some(signature), ..method }),
        },
        Some(KnownAttribute::Synthetic) => Ok(
            ClassMethodEventView {
                access: MethodAccess { bits: method.access.bits | MethodAccess::SYNTHETIC },
                ..method
            },
        ),
        Some(known) => if is_annotation_list(known) {
            match events.annotations.spec_note(pool.data, known, payload) {
                Err(e) => Err(e),
                Ok(annotations) => Ok(
                    ClassMethodEventView { events: MethodReaderEventsView { annotations, ..events }, ..method },
                ),
            }
        } else {
            Ok(spec_method_custom(method, header))
        },
        None => Ok(spec_method_custom(method, header)),
    }
}

/// The method with the start of one more attribute kept that the reader
/// does not decode.
pub open spec fn spec_method_custom<'reader, 'class>(
    method: ClassMethodEventView<'reader, 'class>,
    header: AttributeHeader,
) -> ClassMethodEventView<'reader, 'class> {
    ClassMethodEventView {
        events: MethodReaderEventsView {
            custom_attribute_offsets: method.events.custom_attribute_offsets.push(
                (header.payload - 6) as usize,
            ),
            ..method.events
        },
        ..method
    }
}

/// The method with the `remaining` attributes taken in that start at
/// `offset`, and the offset behind them.
pub open spec fn spec_method_attributes_from<'reader, 'class>(
    pool: Pool,
    flags: ClassReaderFlags,
    offset: usize,
    remaining: int,
    method: ClassMethodEventView<'reader, 'class>,
) -> ClassFileResult<(ClassMethodEventView<'reader, 'class>, int)>
    decreases remaining,
{
    if remaining <= 0 {
        Ok((method, offset as int))
    } else {
        match spec_attribute_header(pool, offset as int) {
            Err(e) => Err(e),
            Ok(header) => match spec_method_attribute(pool, flags, method, header) {
                Err(e) => Err(e),
                Ok(next) => spec_method_attributes_from(
                    pool,
                    flags,
                    spec_advance(header.payload as int, header.length as int),
                    remaining - 1,
                    next,
                ),
            },
        }
    }
}

/// The events of a method of which no attribute is known yet.
pub open spec fn spec_fresh_events<'reader, 'class>(
    reader: &'reader ClassReader<'class>,
    bootstrap_methods: ClassFileResult<Seq<BootstrapMethodView>>,
    method_index: u16,
) -> MethodReaderEventsView<'reader, 'class> {
    MethodReaderEventsView {
        reader,
        annotation_default_offset: 0,
        code_offset: 0,
        annotations: AnnotationOffsets::spec_none(),
        invisible_parameter_annotations_offset: 0,
        visible_parameter_annotations_offset: 0,
        is_deprecated: false,
        parameters_count: 0,
        parameters_offset: 0,
        custom_attribute_offsets: Seq::empty(),
        code_data: None,
        bootstrap_methods,
        state: 0,
        code_index: 0,
        method_index,
    }
}

/// The index among the methods of a class of the method at which a walk
/// over `count` methods stands that has `remaining` of them before it.
pub open spec fn spec_method_index(count: u16, remaining: u16) -> u16 {
    if remaining <= count {
        (count - remaining) as u16
    } else {
        0
    }
}

/// The method that starts at `offset` and has the index `method_index`
/// among the methods of its class: its access flags, the slots of its name
/// and of its descriptor, the number of its attributes and the attributes.
/// Its events start at their first step.
pub open spec fn spec_method<'reader, 'class>(
    reader: &'reader ClassReader<'class>,
    bootstrap_methods: ClassFileResult<Seq<BootstrapMethodView>>,
    offset: int,
    method_index: u16,
) -> ClassFileResult<(ClassMethodEventView<'reader, 'class>, int)> {
    let pool = reader@.pool;
    match spec_read_u16(pool.data, offset) {
        Err(e) => Err(e),
        Ok(bits) => match spec_utf8_at(pool, offset + 2) {
            Err(e) => Err(e),
            Ok(name) => match spec_utf8_at(pool, offset + 4) {
                Err(e) => Err(e),
                Ok(desc) => match spec_read_u16(pool.data, offset + 6) {
                    Err(e) => Err(e),
                    Ok(count) => spec_method_attributes_from(
                        pool,
                        reader@.flags,
                        (offset + 8) as usize,
                        count as int,
                        ClassMethodEventView {
                            access: MethodAccess { bits },
                            name,
                            desc,
                            signature: None,
                            exceptions: Seq::empty(),
                            events: spec_fresh_events(reader, bootstrap_methods, method_index),
                        },
                    ),
                },
            },
        },
    }
}

/// Takes one more attribute into the method.
fn read_method_attribute<'reader, 'class>(
    pool: &ConstantPool,
    flags: ClassReaderFlags,
    method: ClassMethodEvent<'reader, 'class>,
    header: &AttributeHeader,
) -> (r: ClassFileResult<ClassMethodEvent<'reader, 'class>>)
    requires
        6 <= header.payload <= pool@.data.len() <= usize::MAX,
    ensures
        crate::error::deep(r) == spec_method_attribute(pool@, flags, method.deep_view(), *header),
        r is Ok && flags.spec_contains(ClassReaderFlags::SKIP_CODE) ==> r->Ok_0.events.code_offset
            == method.events.code_offset,
        r is Ok ==> r->Ok_0.events.code_data is None == method.events.code_data is None,
        r is Ok ==> r->Ok_0.events.state == method.events.state,
        r is Ok ==> r->Ok_0.events.reader == method.events.reader,
        r is Ok ==> r->Ok_0.events.method_index == method.events.method_index,
        r is Ok ==> r->Ok_0.events.code_index == method.events.code_index,
{
    reveal(spec_method_attribute);
    let mut method = method;
    match header.known {
        Some(KnownAttribute::AnnotationDefault) => {
            method.events.annotation_default_offset = header.payload;
        },
        Some(KnownAttribute::Code) => {
            if !flags.contains(ClassReaderFlags::SKIP_CODE) {
                method.events.code_offset = header.payload;
            }
        },
        Some(KnownAttribute::Deprecated) => {
            method.events.is_deprecated = true;
        },
        Some(KnownAttribute::Exceptions) => {
            let exception_count: u16 = pool.buffer().read_u16(header.payload)?;
            let (mut names, _) = pool.names_from(header.payload + 2, exception_count, ConstantPoolTag::Class)?;
            let ghost before = method.exceptions.deep_view();
            let ghost added = names.deep_view();
            method.exceptions.append(&mut names);
            assert(method.exceptions.deep_view() =~= before + added);
        },
        Some(KnownAttribute::MethodParameters) => {
            if !flags.contains(ClassReaderFlags::SKIP_DEBUG) {
                method.events.parameters_count = pool.buffer().read_u8(header.payload)? as u16;
                method.events.parameters_offset = header.payload + 1;
            }
        },
        Some(KnownAttribute::RuntimeInvisibleParameterAnnotations) => {
            method.events.invisible_parameter_annotations_offset = header.payload;
        },
        Some(KnownAttribute::RuntimeVisibleParameterAnnotations) => {
            method.events.visible_parameter_annotations_offset = header.payload;
        },
        Some(KnownAttribute::Signature) => {
            method.signature = Some(pool.utf8_at(header.payload)?);
        },
        Some(KnownAttribute::Synthetic) => {
            method.access.insert(MethodAccess::SYNTHETIC);
        },
        Some(KnownAttribute::RuntimeVisibleAnnotations) => {
            method.events.annotations.note(pool, KnownAttribute::RuntimeVisibleAnnotations, header.payload)?;
        },
        Some(KnownAttribute::RuntimeInvisibleAnnotations) => {
            method.events.annotations.note(
                pool,
                KnownAttribute::RuntimeInvisibleAnnotations,
                header.payload,
            )?;
        },
        Some(KnownAttribute::RuntimeVisibleTypeAnnotations) => {
            method.events.annotations.note(
                pool,
                KnownAttribute::RuntimeVisibleTypeAnnotations,
                header.payload,
            )?;
        },
        Some(KnownAttribute::RuntimeInvisibleTypeAnnotations) => {
            method.events.annotations.note(
                pool,
                KnownAttribute::RuntimeInvisibleTypeAnnotations,
                header.payload,
            )?;
        },
        _ => {
            method.events.custom_attribute_offsets.push(header.payload - 6);
        },
    }
    Ok(method)
}

impl<'reader, 'class> ClassMethodsIterator<'reader, 'class> {
    /// A reader of the `count` methods that start at `offset`.
    pub fn new(
        reader: &'reader ClassReader<'class>,
        count: u16,
        offset: usize,
        bootstrap_methods: BootstrapMethods,
    ) -> (r: Self)
        ensures
            r == (Self { reader, count, remaining: count, offset, bootstrap_methods }),
    {
        ClassMethodsIterator { reader, count, remaining: count, offset, bootstrap_methods }
    }

    /// The index among the methods of the class of the method at which the
    /// reader stands.
    pub fn method_index(&self) -> (r: u16)
        ensures
            r == spec_method_index(self.count, self.remaining),
    {
        if self.remaining <= self.count {
            self.count - self.remaining
        } else {
            0
        }
    }

    /// Decodes the method at which the reader stands, and gives the offset
    /// behind it.
    ///
    /// The events of a method of a reader that skips code know of no code.
    pub fn event(&self) -> (r: ClassFileResult<(ClassMethodEvent<'reader, 'class>, usize)>)
        ensures
            parsed(r) == spec_method(
                self.reader,
                self.bootstrap_methods.deep_view(),
                self.offset as int,
                spec_method_index(self.count, self.remaining),
            ),
            r is Ok && self.reader@.flags.spec_contains(ClassReaderFlags::SKIP_CODE) ==> r->Ok_0.0.events.code_offset
                == 0,
            r is Ok ==> r->Ok_0.0.events.code_data is None && r->Ok_0.0.events.state == 0,
            r is Ok ==> r->Ok_0.0.events.reader == self.reader,
            r is Ok ==> r->Ok_0.0.events.method_index == spec_method_index(self.count, self.remaining),
            r is Ok ==> r->Ok_0.0.events.code_index == 0,
    {
        let reader = self.reader;
        let pool = reader.constant_pool();
        let buffer = pool.buffer();
        let offset: usize = self.offset;
        let access = MethodAccess::from_bits_retain(buffer.read_u16(offset)?);
        let name = pool.utf8_at(offset + 2)?;
        let desc = pool.utf8_at(offset + 4)?;
        let attribute_count: u16 = buffer.read_u16(offset + 6)?;
        let mut method = ClassMethodEvent {
            access,
            name,
            desc,
            signature: None,
            exceptions: Vec::new(),
            events: MethodReaderEvents {
                reader,
                annotation_default_offset: 0,
                code_offset: 0,
                annotations: AnnotationOffsets::none(),
                invisible_parameter_annotations_offset: 0,
                visible_parameter_annotations_offset: 0,
                is_deprecated: false,
                parameters_count: 0,
                parameters_offset: 0,
                custom_attribute_offsets: Vec::new(),
                code_data: None,
                bootstrap_methods: self.bootstrap_methods.clone(),
                state: 0,
                code_index: 0,
                method_index: self.method_index(),
            },
        };
        assert(method.exceptions.deep_view() =~= Seq::empty());
        let mut at: usize = offset + 8;
        let mut i: u16 = 0;
        while i < attribute_count
            invariant
                i <= attribute_count,
                pool@ == reader@.pool,
                reader == self.reader,
                method.events.code_data is None,
                method.events.state == 0,
                method.events.reader == reader,
                method.events.method_index == spec_method_index(self.count, self.remaining),
                method.events.code_index == 0,
                reader@.flags.spec_contains(ClassReaderFlags::SKIP_CODE) ==> method.events.code_offset == 0,
                spec_method(
                    reader,
                    self.bootstrap_methods.deep_view(),
                    self.offset as int,
                    spec_method_index(self.count, self.remaining),
                ) == spec_method_attributes_from(
                    pool@,
                    reader@.flags,
                    at,
                    attribute_count - i,
                    method.deep_view(),
                ),
            decreases attribute_count - i,
        {
            let header = read_attribute_header(pool, at)?;
            method = read_method_attribute(pool, reader.flags(), method, &header)?;
            at = buffer.advance(header.payload, header.length as usize);
            i = i + 1;
        }
        Ok((method, at))
    }

    /// The next method, or nothing behind the last one. A method that fails
    /// to decode counts as read, and leaves the reader where it stood. Each
    /// method has its index among the methods of the class, so that no two
    /// methods of one walk have the same index, nor a label in common.
    pub fn next(&mut self) -> (r: Option<ClassFileResult<ClassMethodEvent<'reader, 'class>>>)
        ensures
            r is Some && r->Some_0 is Ok ==> r->Some_0->Ok_0.events.method_index == spec_method_index(
                old(self).count,
                old(self).remaining,
            ),
            final(self).reader == old(self).reader,
            final(self).count == old(self).count,
            final(self).bootstrap_methods == old(self).bootstrap_methods,
            old(self).remaining == 0 ==> r is None && *final(self) == *old(self),
            old(self).remaining > 0 ==> r is Some && final(self).remaining == old(self).remaining - 1
                && ended(r->Some_0, final(self).offset) == spec_method(
                old(self).reader,
                old(self).bootstrap_methods.deep_view(),
                old(self).offset as int,
                spec_method_index(old(self).count, old(self).remaining),
            ) && (r->Some_0 is Err ==> final(self).offset == old(self).offset),
            r is Some && r->Some_0 is Ok && old(self).reader@.flags.spec_contains(
                ClassReaderFlags::SKIP_CODE,
            ) ==> r->Some_0->Ok_0.events.code_offset == 0,
            r is Some && r->Some_0 is Ok ==> r->Some_0->Ok_0.events.code_data is None
                && r->Some_0->Ok_0.events.state == 0,
            r is Some && r->Some_0 is Ok ==> spec_obeys_flags(r->Some_0->Ok_0.events.deep_view()),
            r is Some && r->Some_0 is Ok ==> spec_keeps_labels(r->Some_0->Ok_0.events.deep_view()),
    {
        if self.remaining == 0 {
            return None;
        }
        let found = self.event();
        self.remaining = self.remaining - 1;
        match found {
            Ok((item, end)) => {
                self.offset = end;
                Some(Ok(item))
            },
            Err(e) => Some(Err(e)),
        }
    }

    /// The number of methods.
    pub fn len(&self) -> (n: usize)
        ensures
            n == self.count,
    {
        self.count as usize
    }
}

/// The event of an annotation on a parameter.
pub open spec fn spec_parameter_annotation(pool: Pool, parameter: u8, visible: bool, offset: int) -> ClassFileResult<
    (MethodParameterAnnotationEventView, int),
> {
    match spec_annotation(pool, offset, 0) {
        Err(e) => Err(e),
        Ok(found) => Ok(
            (MethodParameterAnnotationEventView { parameter, visible, annotation: found.0 }, found.1),
        ),
    }
}

/// The index of a parameter behind the one with index `index`; it stops at
/// the largest index there is.
pub open spec fn spec_next_parameter(index: u8) -> u8 {
    if index < 255 {
        (index + 1) as u8
    } else {
        255u8
    }
}

/// One step of the walk over the annotations on the parameters of a method:
/// what it yields, if anything, and the reader afterwards.
///
/// Each of the two lists starts with the number of parameters in one byte;
/// for each parameter follow the number of its annotations and the
/// annotations. The steps 0 to 2 walk the visible list, the steps 3 to 5
/// the invisible one: the first of them reads the number of parameters, the
/// second the number of annotations of the next parameter, the third an
/// annotation. A list at offset zero is not there.
pub open spec fn spec_parameter_annotations_step<'reader, 'class>(
    it: MethodParameterAnnotationsReaderIterator<'reader, 'class>,
) -> (
    Option<ClassFileResult<MethodParameterAnnotationEventView>>,
    MethodParameterAnnotationsReaderIterator<'reader, 'class>,
) {
    let pool = it.reader@.pool;
    let visible = it.state < 3;
    let offset = if visible {
        it.visible_offset
    } else {
        it.invisible_offset
    };
    let first: u8 = if visible {
        0u8
    } else {
        3u8
    };
    let behind: u8 = if visible {
        3u8
    } else {
        6u8
    };
    if it.state >= 6 {
        (None, it)
    } else if it.state == first {
        if offset == 0 {
            (None, MethodParameterAnnotationsReaderIterator { state: behind, ..it })
        } else {
            match spec_read_u8(pool.data, offset as int) {
                Err(e) => (Some(Err(e)), it),
                Ok(count) => (
                    None,
                    spec_moved(
                        MethodParameterAnnotationsReaderIterator {
                            param_count: count,
                            param_index: if visible {
                                it.param_index
                            } else {
                                0u8
                            },
                            state: (first + 1) as u8,
                            ..it
                        },
                        (offset + 1) as usize,
                    ),
                ),
            }
        }
    } else if it.state == first + 1 {
        if it.param_index >= it.param_count {
            (None, MethodParameterAnnotationsReaderIterator { state: behind, ..it })
        } else {
            match spec_read_u16(pool.data, offset as int) {
                Err(e) => (Some(Err(e)), it),
                Ok(count) => (
                    None,
                    spec_moved(
                        MethodParameterAnnotationsReaderIterator {
                            annotations_remaining: count,
                            state: (first + 2) as u8,
                            ..it
                        },
                        (offset + 2) as usize,
                    ),
                ),
            }
        }
    } else if it.annotations_remaining == 0 {
        (
            None,
            MethodParameterAnnotationsReaderIterator {
                param_index: spec_next_parameter(it.param_index),
                state: if spec_next_parameter(it.param_index) >= it.param_count {
                    behind
                } else {
                    (first + 1) as u8
                },
                ..it
            },
        )
    } else {
        let counted = MethodParameterAnnotationsReaderIterator {
            annotations_remaining: (it.annotations_remaining - 1) as u16,
            ..it
        };
        match spec_parameter_annotation(pool, it.param_index, visible, offset as int) {
            Err(e) => (Some(Err(e)), counted),
            Ok(found) => (Some(Ok(found.0)), spec_moved(counted, found.1 as usize)),
        }
    }
}

/// The reader moved to `offset` in the list that it walks.
pub open spec fn spec_moved<'reader, 'class>(
    it: MethodParameterAnnotationsReaderIterator<'reader, 'class>,
    offset: usize,
) -> MethodParameterAnnotationsReaderIterator<'reader, 'class> {
    if it.state < 3 {
        MethodParameterAnnotationsReaderIterator { visible_offset: offset, ..it }
    } else {
        MethodParameterAnnotationsReaderIterator { invisible_offset: offset, ..it }
    }
}

/// How many lists the reader has before it, the one that it walks counted.
pub open spec fn spec_lists_left<'reader, 'class>(
    it: MethodParameterAnnotationsReaderIterator<'reader, 'class>,
) -> int {
    if it.state < 3 {
        2
    } else if it.state < 6 {
        1
    } else {
        0
    }
}

/// How many parameters the reader has before it in the list that it walks.
pub open spec fn spec_parameters_left<'reader, 'class>(
    it: MethodParameterAnnotationsReaderIterator<'reader, 'class>,
) -> int {
    if it.state == 0 || it.state == 3 {
        256
    } else if it.state < 6 && it.param_index < it.param_count {
        it.param_count - it.param_index
    } else {
        0
    }
}

/// How many steps the reader has before it for the parameter at which it
/// stands.
pub open spec fn spec_steps_left<'reader, 'class>(
    it: MethodParameterAnnotationsReaderIterator<'reader, 'class>,
) -> int {
    if it.state == 1 || it.state == 4 {
        1
    } else {
        0
    }
}

/// The next annotation on a parameter, if there is one, and the reader
/// afterwards.
pub open spec fn spec_parameter_annotations_next<'reader, 'class>(
    it: MethodParameterAnnotationsReaderIterator<'reader, 'class>,
) -> (
    Option<ClassFileResult<MethodParameterAnnotationEventView>>,
    MethodParameterAnnotationsReaderIterator<'reader, 'class>,
)
    decreases spec_lists_left(it), spec_parameters_left(it), spec_steps_left(it),
{
    if it.state >= 6 {
        (None, it)
    } else {
        let step = spec_parameter_annotations_step(it);
        match step.0 {
            Some(event) => step,
            None => spec_parameter_annotations_next(step.1),
        }
    }
}

impl<'reader, 'class> MethodParameterAnnotationsReaderIterator<'reader, 'class> {
    /// A reader of the two lists whose payloads start at the two offsets.
    pub fn new(reader: &'reader ClassReader<'class>, visible_offset: usize, invisible_offset: usize) -> (r:
        Self)
        ensures
            r == (Self {
                reader,
                visible_offset,
                invisible_offset,
                param_count: 0,
                param_index: 0,
                annotations_remaining: 0,
                state: 0,
            }),
    {
        MethodParameterAnnotationsReaderIterator {
            reader,
            visible_offset,
            invisible_offset,
            param_count: 0,
            param_index: 0,
            annotations_remaining: 0,
            state: 0,
        }
    }

    /// Moves the reader to `offset` in the list that it walks.
    fn move_to(&mut self, offset: usize)
        ensures
            *final(self) == spec_moved(*old(self), offset),
    {
        if self.state < 3 {
            self.visible_offset = offset;
        } else {
            self.invisible_offset = offset;
        }
    }

    /// One step of the walk.
    fn step(&mut self) -> (r: Option<ClassFileResult<MethodParameterAnnotationEvent>>)
        requires
            old(self).state < 6,
        ensures
            yielded(r) == spec_parameter_annotations_step(*old(self)).0,
            *final(self) == spec_parameter_annotations_step(*old(self)).1,
    {
        let reader = self.reader;
        let pool = reader.constant_pool();
        let visible: bool = self.state < 3;
        let offset: usize = if visible {
            self.visible_offset
        } else {
            self.invisible_offset
        };
        let first: u8 = if visible {
            0
        } else {
            3
        };
        let behind: u8 = if visible {
            3
        } else {
            6
        };
        if self.state == first {
            if offset == 0 {
                self.state = behind;
                return None;
            }
            match pool.buffer().read_u8(offset) {
                Err(e) => Some(Err(e)),
                Ok(count) => {
                    self.param_count = count;
                    if !visible {
                        self.param_index = 0;
                    }
                    self.state = first + 1;
                    self.move_to(offset + 1);
                    None
                },
            }
        } else if self.state == first + 1 {
            if self.param_index >= self.param_count {
                self.state = behind;
                return None;
            }
            match pool.buffer().read_u16(offset) {
                Err(e) => Some(Err(e)),
                Ok(count) => {
                    self.annotations_remaining = count;
                    self.state = first + 2;
                    self.move_to(offset + 2);
                    None
                },
            }
        } else if self.annotations_remaining == 0 {
            if self.param_index < 255 {
                self.param_index = self.param_index + 1;
            }
            self.state = if self.param_index >= self.param_count {
                behind
            } else {
                first + 1
            };
            None
        } else {
            self.annotations_remaining = self.annotations_remaining - 1;
            match read_annotation(pool, offset, 0) {
                Err(e) => Some(Err(e)),
                Ok((annotation, end)) => {
                    self.move_to(end);
                    Some(Ok(MethodParameterAnnotationEvent { parameter: self.param_index, visible, annotation }))
                },
            }
        }
    }

    /// The next annotation on a parameter, or nothing behind the last one.
    pub fn next(&mut self) -> (r: Option<ClassFileResult<MethodParameterAnnotationEvent>>)
        ensures
            yielded(r) == spec_parameter_annotations_next(*old(self)).0,
            *final(self) == spec_parameter_annotations_next(*old(self)).1,
    {
        loop
            invariant
                spec_parameter_annotations_next(*old(self)) == spec_parameter_annotations_next(*self),
            decreases spec_lists_left(*self), spec_parameters_left(*self), spec_steps_left(*self),
        {
            if self.state >= 6 {
                return None;
            }
            match self.step() {
                Some(event) => {
                    return Some(event);
                },
                None => {},
            }
        }
    }
}

/// The step of the events of a method in which the code is opened.
pub const OPEN_CODE_STATE: u8 = 9;

/// The first of the steps that are taken for each offset of the code.
pub const START_INSNS_STATE: u8 = 10;

/// The step behind the steps that are taken for each offset of the code.
pub const END_INSNS_STATE: u8 = 16;

/// The step behind the last step.
pub const MAX_STATE: u8 = 22;

/// The number of offsets that a code can have at most, the offset behind the
/// code counted.
pub const MAX_PLACES: usize = 0x1_0000;

/// The events at the step behind their step.
pub open spec fn spec_stepped<'reader, 'class>(
    m: MethodReaderEventsView<'reader, 'class>,
) -> MethodReaderEventsView<'reader, 'class> {
    MethodReaderEventsView { state: (m.state + 1) as u8, ..m }
}

/// The events with their code replaced.
pub open spec fn spec_with_code<'reader, 'class>(
    m: MethodReaderEventsView<'reader, 'class>,
    code: CodeDataView<'reader, 'class>,
) -> MethodReaderEventsView<'reader, 'class> {
    MethodReaderEventsView { code_data: Some(code), state: (m.state + 1) as u8, ..m }
}

/// What one of the steps before the code yields, if anything: the
/// `Deprecated` marker, the parameters, the default value of an annotation
/// method, the annotations, the type annotations, the number of parameters
/// that can have visible annotations and that of those that can have
/// invisible ones, the annotations on parameters, and the other attributes,
/// in this order, each only where the method has it.
#[verifier::opaque]
pub open spec fn spec_method_head<'reader, 'class>(
    m: MethodReaderEventsView<'reader, 'class>,
) -> Option<ClassFileResult<MethodEventView<'reader, 'class>>> {
    let pool = m.reader@.pool;
    if m.state == 0 && m.is_deprecated {
        Some(Ok(MethodEventView::Deprecated))
    } else if m.state == 1 && m.parameters_offset != 0 {
        Some(
            Ok(
                MethodEventView::Parameters(
                    MethodParameterReaderIterator {
                        reader: m.reader,
                        count: m.parameters_count,
                        remaining: m.parameters_count,
                        offset: m.parameters_offset,
                    },
                ),
            ),
        )
    } else if m.state == 2 && m.annotation_default_offset != 0 {
        Some(
            match spec_annotation_value(pool, m.annotation_default_offset as int, 0) {
                Err(e) => Err(e),
                Ok(value) => Ok(MethodEventView::AnnotationDefault(value.0)),
            },
        )
    } else if m.state == 3 && m.annotations.spec_has_annotations() {
        Some(Ok(MethodEventView::Annotations(m.annotations.spec_annotations(m.reader))))
    } else if m.state == 4 && m.annotations.spec_has_type_annotations() {
        Some(Ok(MethodEventView::TypeAnnotations(m.annotations.spec_type_annotations(m.reader))))
    } else if m.state == 5 && m.visible_parameter_annotations_offset != 0 {
        Some(
            match spec_read_u8(pool.data, m.visible_parameter_annotations_offset as int) {
                Err(e) => Err(e),
                Ok(count) => Ok(
                    MethodEventView::AnnotableParameterCount(
                        MethodAnnotableParameterCountEvent { count, visible: true },
                    ),
                ),
            },
        )
    } else if m.state == 6 && m.invisible_parameter_annotations_offset != 0 {
        Some(
            match spec_read_u8(pool.data, m.invisible_parameter_annotations_offset as int) {
                Err(e) => Err(e),
                Ok(count) => Ok(
                    MethodEventView::AnnotableParameterCount(
                        MethodAnnotableParameterCountEvent { count, visible: false },
                    ),
                ),
            },
        )
    } else if m.state == 7 && (m.visible_parameter_annotations_offset != 0
        || m.invisible_parameter_annotations_offset != 0) {
        Some(
            Ok(
                MethodEventView::ParameterAnnotations(
                    MethodParameterAnnotationsReaderIterator {
                        reader: m.reader,
                        visible_offset: m.visible_parameter_annotations_offset,
                        invisible_offset: m.invisible_parameter_annotations_offset,
                        param_count: 0,
                        param_index: 0,
                        annotations_remaining: 0,
                        state: 0,
                    },
                ),
            ),
        )
    } else if m.state == 8 && m.custom_attribute_offsets.len() > 0 {
        Some(
            Ok(
                MethodEventView::Attributes(
                    CustomAttributeReaderIteratorView {
                        reader: m.reader,
                        index: 0,
                        offsets: m.custom_attribute_offsets,
                    },
                ),
            ),
        )
    } else {
        None
    }
}

/// The decoded code once the creator of its labels has been handed on.
pub open spec fn spec_handed_on<'reader, 'class>(code: CodeDataView<'reader, 'class>) -> CodeDataView<
    'reader,
    'class,
> {
    CodeDataView { labels: Labels { creator: None, ..code.labels }, ..code }
}

/// Two methods that one walk over the methods of a class yields have
/// different indices: the walk stands at a later method each time.
pub proof fn law_methods_of_a_walk_have_their_indices(count: u16, earlier: u16, later: u16)
    requires
        later < earlier <= count,
    ensures
        spec_method_index(count, earlier) != spec_method_index(count, later),
        spec_method_index(count, earlier) < spec_method_index(count, later),
{
}

/// Whether the labels of the decoded code, if the events hold one, are in
/// order and are labels of the method of the events, and the instructions
/// of the code are instructions; and whether events that have not come to
/// the code stand before its first offset.
pub open spec fn spec_keeps_labels<'reader, 'class>(m: MethodReaderEventsView<'reader, 'class>) -> bool {
    &&& m.state <= OPEN_CODE_STATE ==> m.code_index == 0
    &&& m.code_data is Some ==> {
        &&& labels_sound(m.code_data->Some_0.labels)
        &&& m.code_data->Some_0.labels.method == m.method_index
        &&& spec_all_insns(m.code_data->Some_0.insns)
    }
}

/// Whether what is yielded, where it opens the code, hands on the creator of
/// the labels of the code that the events `m` hold: the creator makes labels
/// of the method, from the number on that follows the labels of the code,
/// the table of the code holds no creator any more, and the events stand in
/// the code.
pub open spec fn spec_hands_on_creator<'reader, 'class>(
    m: MethodReaderEventsView<'reader, 'class>,
    r: Option<ClassFileResult<MethodEventView<'reader, 'class>>>,
) -> bool {
    r is Some && r->Some_0 is Ok && r->Some_0->Ok_0 is Code ==> {
        &&& spec_in_code(m)
        &&& m.state == START_INSNS_STATE
        &&& m.code_index == 0
        &&& m.code_data is Some
        &&& m.code_data->Some_0.labels.creator is None
        &&& r->Some_0->Ok_0->Code_label_creator == (LabelCreatorView {
            method: m.method_index,
            next: m.code_data->Some_0.labels.next,
        })
    }
}

/// Two methods of one class never share a label: where the events of two
/// methods with different indices hold their decoded codes, no label of a
/// place of the one is the label of a place of the other.
pub proof fn law_two_methods_share_no_label<'reader, 'class>(
    first: MethodReaderEventsView<'reader, 'class>,
    second: MethodReaderEventsView<'reader, 'class>,
    i: int,
    j: int,
)
    requires
        spec_keeps_labels(first),
        spec_keeps_labels(second),
        first.method_index != second.method_index,
        first.code_data is Some,
        second.code_data is Some,
        0 <= i < first.code_data->Some_0.labels.labels.len(),
        0 <= j < second.code_data->Some_0.labels.labels.len(),
        first.code_data->Some_0.labels.labels[i] is Some,
        second.code_data->Some_0.labels.labels[j] is Some,
    ensures
        first.code_data->Some_0.labels.labels[i] != second.code_data->Some_0.labels.labels[j],
{
}

/// The creator that the event hands on which opens the code of a method
/// makes labels that are no labels of the code, as long as its counter has
/// not gone round, and no labels of another method at all.
pub proof fn law_handed_on_creator_makes_new_labels<'reader, 'class>(
    m: MethodReaderEventsView<'reader, 'class>,
    other: MethodReaderEventsView<'reader, 'class>,
    r: Option<ClassFileResult<MethodEventView<'reader, 'class>>>,
    n: nat,
    i: int,
    j: int,
)
    requires
        spec_keeps_labels(m),
        spec_keeps_labels(other),
        spec_hands_on_creator(m, r),
        r is Some && r->Some_0 is Ok && r->Some_0->Ok_0 is Code,
        m.method_index != other.method_index,
        m.code_data->Some_0.labels.next + n < 0x1_0000_0000,
        0 <= i < m.code_data->Some_0.labels.labels.len(),
        m.code_data->Some_0.labels.labels[i] is Some,
        other.code_data is Some,
        0 <= j < other.code_data->Some_0.labels.labels.len(),
        other.code_data->Some_0.labels.labels[j] is Some,
    ensures
        spec_label_after(r->Some_0->Ok_0->Code_label_creator, n) != m.code_data->Some_0.labels.labels[i]->Some_0,
        spec_label_after(r->Some_0->Ok_0->Code_label_creator, n) != other.code_data->Some_0.labels.labels[j]->Some_0,
{
}

/// What the step yields in which the code is opened, and the events
/// afterwards. A method without code, or of which the code is skipped, is at
/// its end. Else the code is decoded: it is kept and the event that opens it
/// is yielded, or its error is yielded and the events are at their end. The
/// event that opens the code hands on the creator of the labels of the
/// method, which goes on behind the labels of the code.
pub open spec fn spec_method_open<'reader, 'class>(m: MethodReaderEventsView<'reader, 'class>) -> (
    Option<ClassFileResult<MethodEventView<'reader, 'class>>>,
    MethodReaderEventsView<'reader, 'class>,
) {
    if m.code_offset == 0 {
        (None, MethodReaderEventsView { state: MAX_STATE, ..m })
    } else {
        match spec_code_data::<'reader, 'class>(
            m.reader@.pool,
            m.reader@.flags.spec_contains(ClassReaderFlags::SKIP_DEBUG),
            m.reader@.flags.spec_contains(ClassReaderFlags::SKIP_FRAMES),
            m.bootstrap_methods,
            m.code_offset as int,
            m.method_index,
        ) {
            Err(e) => (Some(Err(e)), MethodReaderEventsView { state: MAX_STATE, ..m }),
            Ok(code) => (
                Some(
                    Ok(
                        MethodEventView::Code {
                            label_creator: LabelCreatorView { method: code.labels.method, next: code.labels.next },
                        },
                    ),
                ),
                spec_with_code(m, spec_handed_on(code)),
            ),
        }
    }
}

/// What one of the steps on the code yields, if anything, and the events
/// afterwards. For the offset at which the events stand the steps yield the
/// label, the line number, the frame, the instruction and the type
/// annotations on the instruction, each if there is one, and then go on to
/// the next offset. Behind the last offset they yield the local variables,
/// the type annotations on them, the try-catch blocks, the type annotations
/// on them and the other attributes of the code, each if there are any, and
/// last the limits of the frame. What is yielded leaves the code.
#[verifier::opaque]
pub open spec fn spec_method_code<'reader, 'class>(
    m: MethodReaderEventsView<'reader, 'class>,
    code: CodeDataView<'reader, 'class>,
) -> (Option<ClassFileResult<MethodEventView<'reader, 'class>>>, MethodReaderEventsView<'reader, 'class>) {
    let i = m.code_index as int;
    let here = i < code.insns.len() && i < code.labels.labels.len() && i < code.line_numbers.len() && i
        < code.frames.len() && i < code.annotations.len();
    if m.state == START_INSNS_STATE {
        if !here {
            (None, MethodReaderEventsView { state: END_INSNS_STATE, ..m })
        } else {
            match code.labels.labels[i] {
                Some(label) => (Some(Ok(MethodEventView::Label(label))), spec_stepped(m)),
                None => (None, spec_stepped(m)),
            }
        }
    } else if m.state == 11 {
        if here && code.line_numbers[i] is Some && code.labels.labels[i] is Some {
            (
                Some(
                    Ok(
                        MethodEventView::LineNumber {
                            line: code.line_numbers[i]->Some_0,
                            start: code.labels.labels[i]->Some_0,
                        },
                    ),
                ),
                spec_stepped(m),
            )
        } else {
            (None, spec_stepped(m))
        }
    } else if m.state == 12 {
        if here && code.frames[i] is Some {
            (
                Some(Ok(MethodEventView::Frame(code.frames[i]->Some_0))),
                spec_with_code(m, CodeDataView { frames: code.frames.update(i, None), ..code }),
            )
        } else {
            (None, spec_stepped(m))
        }
    } else if m.state == 13 {
        if here && code.insns[i] is Some {
            (
                Some(Ok(code.insns[i]->Some_0)),
                spec_with_code(m, CodeDataView { insns: code.insns.update(i, None), ..code }),
            )
        } else {
            (None, spec_stepped(m))
        }
    } else if m.state == 14 {
        if here && code.annotations[i].len() > 0 {
            (
                Some(Ok(MethodEventView::InsnAnnotations(code.annotations[i]))),
                spec_with_code(
                    m,
                    CodeDataView { annotations: code.annotations.update(i, Seq::empty()), ..code },
                ),
            )
        } else {
            (None, spec_stepped(m))
        }
    } else if m.state == 15 {
        if m.code_index < MAX_PLACES {
            (
                None,
                MethodReaderEventsView {
                    code_index: (m.code_index + 1) as usize,
                    state: START_INSNS_STATE,
                    ..m
                },
            )
        } else {
            (None, spec_stepped(m))
        }
    } else if m.state == END_INSNS_STATE {
        if code.lvt.len() > 0 {
            (
                Some(Ok(MethodEventView::LocalVariables(code.lvt))),
                spec_with_code(m, CodeDataView { lvt: Seq::empty(), ..code }),
            )
        } else {
            (None, spec_stepped(m))
        }
    } else if m.state == 17 {
        if code.local_variable_annotations.len() > 0 {
            (
                Some(Ok(MethodEventView::LocalVariableAnnotations(code.local_variable_annotations))),
                spec_with_code(m, CodeDataView { local_variable_annotations: Seq::empty(), ..code }),
            )
        } else {
            (None, spec_stepped(m))
        }
    } else if m.state == 18 {
        if code.try_catch_blocks.len() > 0 {
            (
                Some(Ok(MethodEventView::TryCatchBlocks(code.try_catch_blocks))),
                spec_with_code(m, CodeDataView { try_catch_blocks: Seq::empty(), ..code }),
            )
        } else {
            (None, spec_stepped(m))
        }
    } else if m.state == 19 {
        if code.try_catch_block_annotations.len() > 0 {
            (
                Some(Ok(MethodEventView::TryCatchBlockAnnotations(code.try_catch_block_annotations))),
                spec_with_code(m, CodeDataView { try_catch_block_annotations: Seq::empty(), ..code }),
            )
        } else {
            (None, spec_stepped(m))
        }
    } else if m.state == 20 {
        if code.custom_attribute_offsets.len() > 0 {
            (
                Some(
                    Ok(
                        MethodEventView::CodeAttributes(
                            CustomAttributeReaderIteratorView {
                                reader: m.reader,
                                index: 0,
                                offsets: code.custom_attribute_offsets,
                            },
                        ),
                    ),
                ),
                spec_with_code(m, CodeDataView { custom_attribute_offsets: Seq::empty(), ..code }),
            )
        } else {
            (None, spec_stepped(m))
        }
    } else {
        (
            Some(
                Ok(
                    MethodEventView::Maxs(
                        MethodMaxsEvent { max_stack: code.max_stack, max_locals: code.max_locals },
                    ),
                ),
            ),
            spec_stepped(m),
        )
    }
}

/// What the step yields at which the events stand, if anything, and the
/// events afterwards.
pub open spec fn spec_method_step<'reader, 'class>(m: MethodReaderEventsView<'reader, 'class>) -> (
    Option<ClassFileResult<MethodEventView<'reader, 'class>>>,
    MethodReaderEventsView<'reader, 'class>,
) {
    if m.state < OPEN_CODE_STATE {
        (spec_method_head(m), spec_stepped(m))
    } else if m.state == OPEN_CODE_STATE {
        spec_method_open(m)
    } else if m.state < MAX_STATE {
        match m.code_data {
            None => (None, MethodReaderEventsView { state: MAX_STATE, ..m }),
            Some(code) => spec_method_code(m, code),
        }
    } else {
        (None, m)
    }
}

/// How many offsets of the code the events have before them at most.
pub open spec fn spec_places_left<'reader, 'class>(m: MethodReaderEventsView<'reader, 'class>) -> int {
    if m.state < END_INSNS_STATE && m.code_index <= MAX_PLACES {
        MAX_PLACES + 1 - m.code_index
    } else {
        0
    }
}

/// How many steps the events have before them at the offset at which they
/// stand.
pub open spec fn spec_states_left<'reader, 'class>(m: MethodReaderEventsView<'reader, 'class>) -> int {
    if m.state < MAX_STATE {
        MAX_STATE - m.state
    } else {
        0
    }
}

/// The next event of a method, if there is one, and the events afterwards.
pub open spec fn spec_method_next<'reader, 'class>(m: MethodReaderEventsView<'reader, 'class>) -> (
    Option<ClassFileResult<MethodEventView<'reader, 'class>>>,
    MethodReaderEventsView<'reader, 'class>,
)
    decreases spec_places_left(m), spec_states_left(m),
    via spec_method_next_decreases
{
    if m.state >= MAX_STATE {
        (None, m)
    } else {
        let step = spec_method_step(m);
        match step.0 {
            Some(event) => step,
            None => spec_method_next(step.1),
        }
    }
}

#[via_fn]
proof fn spec_method_next_decreases<'reader, 'class>(m: MethodReaderEventsView<'reader, 'class>) {
    reveal(spec_method_code);
}

/// All that the events of a method yield from where they stand to their
/// end, in the order in which they are yielded.
pub open spec fn spec_method_drain<'reader, 'class>(m: MethodReaderEventsView<'reader, 'class>) -> Seq<
    ClassFileResult<MethodEventView<'reader, 'class>>,
>
    decreases spec_places_left(m), spec_states_left(m),
    via spec_method_drain_decreases
{
    if m.state >= MAX_STATE {
        Seq::empty()
    } else {
        let step = spec_method_step(m);
        match step.0 {
            Some(event) => seq![event] + spec_method_drain(step.1),
            None => spec_method_drain(step.1),
        }
    }
}

#[via_fn]
proof fn spec_method_drain_decreases<'reader, 'class>(m: MethodReaderEventsView<'reader, 'class>) {
    reveal(spec_method_code);
}

/// The next event of a method is the first of all that the events yield,
/// and the events afterwards yield the rest; where there is no next event,
/// the events yield nothing, now or later.
pub proof fn law_method_next_takes_the_first<'reader, 'class>(m: MethodReaderEventsView<'reader, 'class>)
    ensures
        match spec_method_next(m).0 {
            Some(event) => spec_method_drain(m) == seq![event] + spec_method_drain(spec_method_next(m).1),
            None => spec_method_drain(m) == Seq::<ClassFileResult<MethodEventView<'reader, 'class>>>::empty()
                && spec_method_next(spec_method_next(m).1).0 is None,
        },
    decreases spec_places_left(m), spec_states_left(m),
{
    reveal(spec_method_code);
    if m.state < MAX_STATE {
        let step = spec_method_step(m);
        if step.0 is None {
            law_method_next_takes_the_first(step.1);
        }
    }
}

/// The events of a method whose code is open end with the limits of the
/// frame: whatever else the code yields, the last event is the one with the
/// largest depth of the stack and the number of local variables.
pub proof fn law_limits_come_last<'reader, 'class>(m: MethodReaderEventsView<'reader, 'class>)
    requires
        OPEN_CODE_STATE < m.state < MAX_STATE,
        m.code_data is Some,
    ensures
        spec_method_drain(m).len() > 0,
        spec_method_drain(m).last() == Ok::<MethodEventView<'reader, 'class>, ClassFileError>(
            MethodEventView::Maxs(
                MethodMaxsEvent {
                    max_stack: m.code_data->Some_0.max_stack,
                    max_locals: m.code_data->Some_0.max_locals,
                },
            ),
        ),
    decreases spec_places_left(m), spec_states_left(m),
{
    reveal(spec_method_code);
    let step = spec_method_step(m);
    let rest = spec_method_drain(step.1);
    if m.state == MAX_STATE - 1 {
        assert(rest =~= Seq::empty());
        assert(spec_method_drain(m) =~= seq![step.0->Some_0]);
    } else {
        law_limits_come_last(step.1);
        if step.0 is Some {
            let all = seq![step.0->Some_0] + rest;
            assert(all.last() == rest.last());
        }
    }
}

/// The instructions among the events `drained`, in their order.
pub open spec fn spec_insns_among<'reader, 'class>(
    drained: Seq<ClassFileResult<MethodEventView<'reader, 'class>>>,
) -> Seq<MethodEventView<'reader, 'class>>
    decreases drained.len(),
{
    if drained.len() == 0 {
        Seq::empty()
    } else if drained[0] is Ok && spec_is_insn(drained[0]->Ok_0) {
        seq![drained[0]->Ok_0] + spec_insns_among(drained.drop_first())
    } else {
        spec_insns_among(drained.drop_first())
    }
}

/// The instructions of a table from the offset `i` on, in the order of
/// their offsets.
pub open spec fn spec_insns_from<'reader, 'class>(
    insns: Seq<Option<MethodEventView<'reader, 'class>>>,
    i: int,
) -> Seq<MethodEventView<'reader, 'class>>
    decreases insns.len() - i,
{
    if i < 0 || i >= insns.len() {
        Seq::empty()
    } else {
        match insns[i] {
            Some(insn) => seq![insn] + spec_insns_from(insns, i + 1),
            None => spec_insns_from(insns, i + 1),
        }
    }
}

/// The instructions among some events with one more event before them.
pub proof fn lemma_insns_among_one_more<'reader, 'class>(
    event: ClassFileResult<MethodEventView<'reader, 'class>>,
    rest: Seq<ClassFileResult<MethodEventView<'reader, 'class>>>,
)
    ensures
        spec_insns_among(seq![event] + rest) == (if event is Ok && spec_is_insn(event->Ok_0) {
            seq![event->Ok_0] + spec_insns_among(rest)
        } else {
            spec_insns_among(rest)
        }),
{
    let all = seq![event] + rest;
    assert(all[0] == event);
    assert(all.drop_first() =~= rest);
}

/// The instructions behind an offset are the same when the entry at the
/// offset changes.
pub proof fn lemma_insns_from_behind<'reader, 'class>(
    insns: Seq<Option<MethodEventView<'reader, 'class>>>,
    at: int,
    i: int,
)
    requires
        0 <= at < i,
        at < insns.len(),
    ensures
        spec_insns_from(insns.update(at, None), i) == spec_insns_from(insns, i),
    decreases insns.len() - i,
{
    if i < insns.len() {
        lemma_insns_from_behind(insns, at, i + 1);
    }
}

/// Whether the events stand in the code and the tables of the code fit
/// together: each has an entry for each place, the instructions are
/// instructions, and there are no more places than a code can have.
pub open spec fn spec_in_code<'reader, 'class>(m: MethodReaderEventsView<'reader, 'class>) -> bool {
    &&& START_INSNS_STATE <= m.state < MAX_STATE
    &&& m.code_data is Some
    &&& spec_all_insns(m.code_data->Some_0.insns)
    &&& m.code_data->Some_0.insns.len() <= MAX_PLACES
    &&& m.code_data->Some_0.labels.labels.len() == m.code_data->Some_0.insns.len()
    &&& m.code_data->Some_0.line_numbers.len() == m.code_data->Some_0.insns.len()
    &&& m.code_data->Some_0.frames.len() == m.code_data->Some_0.insns.len()
    &&& m.code_data->Some_0.annotations.len() == m.code_data->Some_0.insns.len()
}

/// The instructions that the events of a method have yet to yield: those
/// from the offset on at which the events stand, or from the next where the
/// step of the instruction is behind them.
pub open spec fn spec_insns_to_come<'reader, 'class>(m: MethodReaderEventsView<'reader, 'class>) -> Seq<
    MethodEventView<'reader, 'class>,
> {
    if m.state <= 13 {
        spec_insns_from(m.code_data->Some_0.insns, m.code_index as int)
    } else if m.state <= 15 {
        spec_insns_from(m.code_data->Some_0.insns, m.code_index + 1)
    } else {
        Seq::empty()
    }
}

/// The events of a method yield each instruction of its code once, in the
/// order of the offsets: the instructions among all that the events yield
/// are the instructions of the table from where the events stand.
pub proof fn law_instructions_come_once_in_order<'reader, 'class>(m: MethodReaderEventsView<'reader, 'class>)
    requires
        spec_in_code(m),
    ensures
        spec_insns_among(spec_method_drain(m)) == spec_insns_to_come(m),
    decreases spec_places_left(m), spec_states_left(m),
{
    reveal(spec_method_code);
    let code = m.code_data->Some_0;
    let i = m.code_index as int;
    let step = spec_method_step(m);
    let rest = spec_method_drain(step.1);
    if step.0 is Some {
        lemma_insns_among_one_more(step.0->Some_0, rest);
    }
    if m.state == MAX_STATE - 1 {
        assert(rest =~= Seq::empty());
    } else {
        assert(spec_in_code(step.1));
        law_instructions_come_once_in_order(step.1);
        if m.state == 13 && i < code.insns.len() && code.insns[i] is Some {
            lemma_insns_from_behind(code.insns, i, i + 1);
        }
    }
}

/// Where the code of a method fails to decode, the step that opens the code
/// yields the error and nothing follows: no event of the code is yielded.
pub proof fn law_failed_code_yields_its_error<'reader, 'class>(m: MethodReaderEventsView<'reader, 'class>)
    requires
        m.state == OPEN_CODE_STATE,
        m.code_offset != 0,
        spec_code_data::<'reader, 'class>(
            m.reader@.pool,
            m.reader@.flags.spec_contains(ClassReaderFlags::SKIP_DEBUG),
            m.reader@.flags.spec_contains(ClassReaderFlags::SKIP_FRAMES),
            m.bootstrap_methods,
            m.code_offset as int,
            m.method_index,
        ) is Err,
    ensures
        spec_method_drain(m) == seq![
            Err::<MethodEventView<'reader, 'class>, ClassFileError>(
                spec_code_data::<'reader, 'class>(
                    m.reader@.pool,
                    m.reader@.flags.spec_contains(ClassReaderFlags::SKIP_DEBUG),
                    m.reader@.flags.spec_contains(ClassReaderFlags::SKIP_FRAMES),
                    m.bootstrap_methods,
                    m.code_offset as int,
                    m.method_index,
                )->Err_0,
            ),
        ],
        spec_method_next(m).0 == Some(
            Err::<MethodEventView<'reader, 'class>, ClassFileError>(
                spec_code_data::<'reader, 'class>(
                    m.reader@.pool,
                    m.reader@.flags.spec_contains(ClassReaderFlags::SKIP_DEBUG),
                    m.reader@.flags.spec_contains(ClassReaderFlags::SKIP_FRAMES),
                    m.bootstrap_methods,
                    m.code_offset as int,
                    m.method_index,
                )->Err_0,
            ),
        ),
{
    let step = spec_method_step(m);
    assert(spec_method_drain(step.1) =~= Seq::empty());
    assert(spec_method_drain(m) =~= seq![step.0->Some_0]);
}

/// Whether an event belongs to the code of a method: the event that opens
/// the code, and every event behind it.
pub open spec fn spec_is_code_event<'reader, 'class>(event: MethodEventView<'reader, 'class>) -> bool {
    !(event is Deprecated || event is Parameters || event is AnnotationDefault || event is Annotations
        || event is TypeAnnotations || event is AnnotableParameterCount || event is ParameterAnnotations
        || event is Attributes)
}

/// Whether a reader with the flags `flags` may yield `event`: one that skips
/// code yields no event of the code, one that skips debug information no
/// line number and no local variables, one that skips frames no frame.
pub open spec fn spec_allowed<'reader, 'class>(
    flags: ClassReaderFlags,
    event: MethodEventView<'reader, 'class>,
) -> bool {
    &&& flags.spec_contains(ClassReaderFlags::SKIP_CODE) ==> !spec_is_code_event(event)
    &&& flags.spec_contains(ClassReaderFlags::SKIP_DEBUG) ==> !(event is LineNumber || event is LocalVariables)
    &&& flags.spec_contains(ClassReaderFlags::SKIP_FRAMES) ==> !(event is Frame)
}

/// Whether the events hold only what the flags of their reader let them
/// hold: no code where code is skipped, no line numbers and no local
/// variables where debug information is skipped, no frames where frames are
/// skipped.
pub open spec fn spec_obeys_flags<'reader, 'class>(m: MethodReaderEventsView<'reader, 'class>) -> bool {
    let flags = m.reader@.flags;
    &&& flags.spec_contains(ClassReaderFlags::SKIP_CODE) ==> m.code_offset == 0 && m.code_data is None
    &&& m.code_data is Some && flags.spec_contains(ClassReaderFlags::SKIP_DEBUG) ==> m.code_data->Some_0.lvt.len()
        == 0 && forall|j: int|
        0 <= j < m.code_data->Some_0.line_numbers.len() ==> (#[trigger] m.code_data->Some_0.line_numbers[j]) is None
    &&& m.code_data is Some && flags.spec_contains(ClassReaderFlags::SKIP_FRAMES) ==> forall|j: int|
        0 <= j < m.code_data->Some_0.frames.len() ==> (#[trigger] m.code_data->Some_0.frames[j]) is None
    &&& m.code_data is Some ==> spec_all_insns(m.code_data->Some_0.insns)
}

/// Whether what a reader with the flags `flags` yields is allowed.
pub open spec fn spec_yield_allowed<'reader, 'class>(
    flags: ClassReaderFlags,
    r: Option<ClassFileResult<MethodEventView<'reader, 'class>>>,
) -> bool {
    r is Some && r->Some_0 is Ok ==> spec_allowed(flags, r->Some_0->Ok_0)
}

impl<'reader, 'class> MethodReaderEvents<'reader, 'class> {
    pub fn is_deprecated(&self) -> (r: bool)
        ensures
            r == self.is_deprecated,
    {
        self.is_deprecated
    }

    pub fn parameters(&self) -> (r: MethodParameterReaderIterator<'reader, 'class>)
        ensures
            r == (MethodParameterReaderIterator {
                reader: self.reader,
                count: self.parameters_count,
                remaining: self.parameters_count,
                offset: self.parameters_offset,
            }),
    {
        MethodParameterReaderIterator::new(self.reader, self.parameters_count, self.parameters_offset)
    }

    /// The default value of an annotation method, if the method has one.
    pub fn annotation_default(&self) -> (r: ClassFileResult<Option<crate::tree::annotation::AnnotationValue>>)
        ensures
            self.annotation_default_offset == 0 ==> r is Ok && r->Ok_0 is None,
            self.annotation_default_offset != 0 ==> crate::error::deep(r) == match spec_annotation_value(
                self.reader@.pool,
                self.annotation_default_offset as int,
                0,
            ) {
                Err(e) => Err::<Option<crate::tree::annotation::AnnotationValueView>, ClassFileError>(e),
                Ok(value) => Ok(Some(value.0)),
            },
    {
        if self.annotation_default_offset == 0 {
            return Ok(None);
        }
        let (value, _) = read_annotation_value(self.reader.constant_pool(), self.annotation_default_offset, 0)?;
        Ok(Some(value))
    }

    pub fn annotations(&self) -> (r: AnnotationReaderIterator<'reader, 'class>)
        ensures
            r == self.annotations.spec_annotations(self.reader),
    {
        self.annotations.annotations(self.reader)
    }

    pub fn type_annotations(&self) -> (r: TypeAnnotationReaderIterator<'reader, 'class>)
        ensures
            r == self.annotations.spec_type_annotations(self.reader),
    {
        self.annotations.type_annotations(self.reader)
    }

    pub fn parameter_annotations(&self) -> (r: MethodParameterAnnotationsReaderIterator<'reader, 'class>)
        ensures
            r == (MethodParameterAnnotationsReaderIterator {
                reader: self.reader,
                visible_offset: self.visible_parameter_annotations_offset,
                invisible_offset: self.invisible_parameter_annotations_offset,
                param_count: 0,
                param_index: 0,
                annotations_remaining: 0,
                state: 0,
            }),
    {
        MethodParameterAnnotationsReaderIterator::new(
            self.reader,
            self.visible_parameter_annotations_offset,
            self.invisible_parameter_annotations_offset,
        )
    }

    /// The attributes that the reader does not decode.
    pub fn attributes(&self) -> (r: CustomAttributeReaderIterator<'reader, 'class>)
        ensures
            r.deep_view() == (CustomAttributeReaderIteratorView {
                reader: self.reader,
                index: 0,
                offsets: self.custom_attribute_offsets@,
            }),
    {
        CustomAttributeReaderIterator::new(self.reader, self.custom_attribute_offsets.clone())
    }

    /// Whether the method has code that the reader decodes.
    pub fn has_code(&self) -> (r: bool)
        ensures
            r == (self.code_offset != 0),
    {
        self.code_offset != 0
    }

    /// What one of the steps before the code yields, if anything.
    fn step_head(&self) -> (r: Option<ClassFileResult<MethodEvent<'reader, 'class>>>)
        requires
            self.state < OPEN_CODE_STATE,
        ensures
            yielded(r) == spec_method_head(self.deep_view()),
            r is Some && r->Some_0 is Ok ==> !spec_is_code_event(r->Some_0->Ok_0.deep_view()),
    {
        reveal(spec_method_head);
        let state: u8 = self.state;
        if state == 0 && self.is_deprecated {
            Some(Ok(MethodEvent::Deprecated))
        } else if state == 1 && self.parameters_offset != 0 {
            Some(Ok(MethodEvent::Parameters(self.parameters())))
        } else if state == 2 && self.annotation_default_offset != 0 {
            match read_annotation_value(self.reader.constant_pool(), self.annotation_default_offset, 0) {
                Err(e) => Some(Err(e)),
                Ok((value, _)) => Some(Ok(MethodEvent::AnnotationDefault(value))),
            }
        } else if state == 3 && self.annotations.has_annotations() {
            Some(Ok(MethodEvent::Annotations(self.annotations())))
        } else if state == 4 && self.annotations.has_type_annotations() {
            Some(Ok(MethodEvent::TypeAnnotations(self.type_annotations())))
        } else if state == 5 && self.visible_parameter_annotations_offset != 0 {
            match self.reader.buffer().read_u8(self.visible_parameter_annotations_offset) {
                Err(e) => Some(Err(e)),
                Ok(count) => Some(
                    Ok(
                        MethodEvent::AnnotableParameterCount(
                            MethodAnnotableParameterCountEvent { count, visible: true },
                        ),
                    ),
                ),
            }
        } else if state == 6 && self.invisible_parameter_annotations_offset != 0 {
            match self.reader.buffer().read_u8(self.invisible_parameter_annotations_offset) {
                Err(e) => Some(Err(e)),
                Ok(count) => Some(
                    Ok(
                        MethodEvent::AnnotableParameterCount(
                            MethodAnnotableParameterCountEvent { count, visible: false },
                        ),
                    ),
                ),
            }
        } else if state == 7 && (self.visible_parameter_annotations_offset != 0
            || self.invisible_parameter_annotations_offset != 0) {
            Some(Ok(MethodEvent::ParameterAnnotations(self.parameter_annotations())))
        } else if state == 8 && self.custom_attribute_offsets.len() > 0 {
            Some(Ok(MethodEvent::Attributes(self.attributes())))
        } else {
            None
        }
    }

    /// The step in which the code is opened.
    fn step_open(&mut self) -> (r: Option<ClassFileResult<MethodEvent<'reader, 'class>>>)
        requires
            old(self).state == OPEN_CODE_STATE,
        ensures
            yielded(r) == spec_method_open(old(self).deep_view()).0,
            final(self).deep_view() == spec_method_open(old(self).deep_view()).1,
            spec_obeys_flags(old(self).deep_view()) ==> spec_obeys_flags(final(self).deep_view())
                && spec_yield_allowed(old(self).reader@.flags, yielded(r)),
            spec_keeps_labels(old(self).deep_view()) ==> spec_keeps_labels(final(self).deep_view())
                && spec_hands_on_creator(final(self).deep_view(), yielded(r)),
            final(self).method_index == old(self).method_index,
    {
        if self.code_offset == 0 {
            self.state = MAX_STATE;
            return None;
        }
        match CodeData::read(self.reader, self.code_offset, &self.bootstrap_methods, self.method_index) {
            Err(e) => {
                self.state = MAX_STATE;
                Some(Err(e))
            },
            Ok(decoded) => {
                let mut code_data = decoded;
                let label_creator = code_data.labels.take_creator().unwrap();
                proof {
                    let view = code_data.deep_view();
                    assert forall|j: int| 0 <= j < view.frames.len() implies (view.frames[j] is None
                        <==> code_data.frames.deep_view()[j] is None) by {}
                }
                self.code_data = Some(code_data);
                self.state = START_INSNS_STATE;
                Some(Ok(MethodEvent::Code { label_creator }))
            },
        }
    }

    /// One of the steps on the code.
    fn step_code(&mut self) -> (r: Option<ClassFileResult<MethodEvent<'reader, 'class>>>)
        requires
            OPEN_CODE_STATE < old(self).state < MAX_STATE,
        ensures
            yielded(r) == spec_method_step(old(self).deep_view()).0,
            final(self).deep_view() == spec_method_step(old(self).deep_view()).1,
            spec_obeys_flags(old(self).deep_view()) ==> spec_obeys_flags(final(self).deep_view())
                && spec_yield_allowed(old(self).reader@.flags, yielded(r)),
            spec_keeps_labels(old(self).deep_view()) ==> spec_keeps_labels(final(self).deep_view())
                && spec_hands_on_creator(final(self).deep_view(), yielded(r)),
            final(self).method_index == old(self).method_index,
    {
        reveal(spec_method_code);
        let state: u8 = self.state;
        let i: usize = self.code_index;
        let reader = self.reader;
        let ghost before = self.deep_view();
        match &mut self.code_data {
            None => {
                self.state = MAX_STATE;
                None
            },
            Some(code) => {
                let ghost view = code.deep_view();
                let here: bool = i < code.insns.len() && i < code.labels.len() && i < code.line_numbers.len()
                    && i < code.frames.len() && i < code.annotations.len();
                if state == START_INSNS_STATE {
                    if !here {
                        self.state = END_INSNS_STATE;
                        return None;
                    }
                    self.state = state + 1;
                    match code.labels.get(i) {
                        Some(label) => Some(Ok(MethodEvent::Label(label))),
                        None => None,
                    }
                } else if state == 11 {
                    self.state = state + 1;
                    if !here {
                        return None;
                    }
                    match (code.line_numbers[i], code.labels.get(i)) {
                        (Some(line), Some(start)) => Some(Ok(MethodEvent::LineNumber { line, start })),
                        _ => None,
                    }
                } else if state == 12 {
                    self.state = state + 1;
                    if !here {
                        return None;
                    }
                    let mut frame: Option<crate::frame::Frame> = None;
                    std::mem::swap(&mut frame, &mut code.frames[i]);
                    assert(code.frames.deep_view() =~= view.frames.update(i as int, None));
                    match frame {
                        Some(frame) => Some(Ok(MethodEvent::Frame(frame))),
                        None => {
                            assert(code.frames.deep_view() =~= view.frames);
                            None
                        },
                    }
                } else if state == 13 {
                    self.state = state + 1;
                    if !here {
                        return None;
                    }
                    let mut insn: Option<MethodEvent<'reader, 'class>> = None;
                    std::mem::swap(&mut insn, &mut code.insns[i]);
                    assert(code.insns.deep_view() =~= view.insns.update(i as int, None));
                    match insn {
                        Some(insn) => Some(Ok(insn)),
                        None => {
                            assert(code.insns.deep_view() =~= view.insns);
                            None
                        },
                    }
                } else if state == 14 {
                    self.state = state + 1;
                    if !here || code.annotations[i].len() == 0 {
                        return None;
                    }
                    let mut annotations: Vec<
                        crate::events::AnnotationEvent<crate::tree::annotation::TypeAnnotationNode>,
                    > = Vec::new();
                    std::mem::swap(&mut annotations, &mut code.annotations[i]);
                    proof {
                        assert(code.annotations@[i as int].deep_view() =~= Seq::empty());
                        assert(code.annotations.deep_view() =~= view.annotations.update(i as int, Seq::empty()));
                    }
                    let list = WrapWithResultReaderIterator::new(annotations);
                    assert(list.deep_view() =~= view.annotations[i as int]);
                    Some(Ok(MethodEvent::InsnAnnotations(list)))
                } else if state == 15 {
                    if i < MAX_PLACES {
                        self.code_index = i + 1;
                        self.state = START_INSNS_STATE;
                    } else {
                        self.state = state + 1;
                    }
                    None
                } else if state == END_INSNS_STATE {
                    self.state = state + 1;
                    if code.lvt.len() == 0 {
                        return None;
                    }
                    let mut lvt: Vec<crate::events::MethodLocalVariableEvent> = Vec::new();
                    std::mem::swap(&mut lvt, &mut code.lvt);
                    assert(code.lvt.deep_view() =~= Seq::empty());
                    let list = WrapWithResultReaderIterator::new(lvt);
                    assert(list.deep_view() =~= view.lvt);
                    Some(Ok(MethodEvent::LocalVariables(list)))
                } else if state == 17 {
                    self.state = state + 1;
                    if code.local_variable_annotations.len() == 0 {
                        return None;
                    }
                    let mut taken: Vec<crate::events::MethodLocalVariableAnnotationEvent> = Vec::new();
                    std::mem::swap(&mut taken, &mut code.local_variable_annotations);
                    assert(code.local_variable_annotations.deep_view() =~= Seq::empty());
                    let list = WrapWithResultReaderIterator::new(taken);
                    assert(list.deep_view() =~= view.local_variable_annotations);
                    Some(Ok(MethodEvent::LocalVariableAnnotations(list)))
                } else if state == 18 {
                    self.state = state + 1;
                    if code.try_catch_blocks.len() == 0 {
                        return None;
                    }
                    let mut taken: Vec<crate::events::MethodTryCatchBlockEvent> = Vec::new();
                    std::mem::swap(&mut taken, &mut code.try_catch_blocks);
                    assert(code.try_catch_blocks.deep_view() =~= Seq::empty());
                    let list = WrapWithResultReaderIterator::new(taken);
                    assert(list.deep_view() =~= view.try_catch_blocks);
                    Some(Ok(MethodEvent::TryCatchBlocks(list)))
                } else if state == 19 {
                    self.state = state + 1;
                    if code.try_catch_block_annotations.len() == 0 {
                        return None;
                    }
                    let mut taken: Vec<crate::events::MethodTryCatchBlockAnnotationEvent> = Vec::new();
                    std::mem::swap(&mut taken, &mut code.try_catch_block_annotations);
                    assert(code.try_catch_block_annotations.deep_view() =~= Seq::empty());
                    let list = WrapWithResultReaderIterator::new(taken);
                    assert(list.deep_view() =~= view.try_catch_block_annotations);
                    Some(Ok(MethodEvent::TryCatchBlockAnnotations(list)))
                } else if state == 20 {
                    self.state = state + 1;
                    if code.custom_attribute_offsets.len() == 0 {
                        return None;
                    }
                    let mut taken: Vec<usize> = Vec::new();
                    std::mem::swap(&mut taken, &mut code.custom_attribute_offsets);
                    Some(Ok(MethodEvent::CodeAttributes(CustomAttributeReaderIterator::new(reader, taken))))
                } else {
                    self.state = state + 1;
                    Some(
                        Ok(
                            MethodEvent::Maxs(
                                MethodMaxsEvent { max_locals: code.max_locals, max_stack: code.max_stack },
                            ),
                        ),
                    )
                }
            },
        }
    }
}

impl<'reader, 'class> MethodReaderEvents<'reader, 'class> {
    /// The step at which the events stand.
    fn step(&mut self) -> (r: Option<ClassFileResult<MethodEvent<'reader, 'class>>>)
        requires
            old(self).state < MAX_STATE,
        ensures
            yielded(r) == spec_method_step(old(self).deep_view()).0,
            final(self).deep_view() == spec_method_step(old(self).deep_view()).1,
            spec_obeys_flags(old(self).deep_view()) ==> spec_obeys_flags(final(self).deep_view())
                && spec_yield_allowed(old(self).reader@.flags, yielded(r)),
            spec_keeps_labels(old(self).deep_view()) ==> spec_keeps_labels(final(self).deep_view())
                && spec_hands_on_creator(final(self).deep_view(), yielded(r)),
            final(self).method_index == old(self).method_index,
    {
        if self.state < OPEN_CODE_STATE {
            let event = self.step_head();
            self.state = self.state + 1;
            event
        } else if self.state == OPEN_CODE_STATE {
            self.step_open()
        } else {
            self.step_code()
        }
    }

    /// The next event of the method, or nothing behind the last one.
    ///
    /// Events that hold only what the flags of their reader let them hold
    /// yield only what the flags allow: where code is skipped no event of the
    /// code, where debug information is skipped no line number and no local
    /// variables, where frames are skipped no frame. The events of a method
    /// that the reader of the methods yields are such events.
    pub fn next(&mut self) -> (r: Option<ClassFileResult<MethodEvent<'reader, 'class>>>)
        ensures
            yielded(r) == spec_method_next(old(self).deep_view()).0,
            final(self).deep_view() == spec_method_next(old(self).deep_view()).1,
            spec_obeys_flags(old(self).deep_view()) ==> spec_obeys_flags(final(self).deep_view())
                && spec_yield_allowed(old(self).reader@.flags, yielded(r)),
            spec_keeps_labels(old(self).deep_view()) ==> spec_keeps_labels(final(self).deep_view())
                && spec_hands_on_creator(final(self).deep_view(), yielded(r)),
            final(self).method_index == old(self).method_index,
    {
        loop
            invariant
                self.reader == old(self).reader,
                spec_method_next(old(self).deep_view()) == spec_method_next(self.deep_view()),
                spec_obeys_flags(old(self).deep_view()) ==> spec_obeys_flags(self.deep_view()),
                spec_keeps_labels(old(self).deep_view()) ==> spec_keeps_labels(self.deep_view()),
                self.method_index == old(self).method_index,
            decreases spec_places_left(self.deep_view()), spec_states_left(self.deep_view()),
        {
            if self.state >= MAX_STATE {
                return None;
            }
            proof {
                reveal(spec_method_code);
            }
            match self.step() {
                Some(event) => {
                    return Some(event);
                },
                None => {},
            }
        }
    }
}

} // verus!
