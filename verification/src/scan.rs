//! What the scans of attribute lists share: the header of an attribute, and
//! the four lists of annotations that most constructs can have.

use crate::attribute::{spec_known_attribute, KnownAttribute};
use crate::buffer::{spec_read_u16, spec_read_u32};
use crate::class_reader::ClassReader;
use crate::constant_pool::{spec_get_utf8_as_bytes, ConstantPool, Pool};
use crate::error::{ClassFileError, ClassFileResult};
use crate::readers::{AnnotationReaderIterator, TypeAnnotationReaderIterator};
use vstd::prelude::*;

verus! {

/// The header of an attribute: which known attribute its name stands for,
/// if any; where its payload starts; how long the payload is.
pub struct AttributeHeader {
    pub known: Option<KnownAttribute>,
    pub payload: usize,
    pub length: u32,
}

/// The header of the attribute that starts at `offset`: the slot of its
/// name, then the length of its payload in four bytes.
pub open spec fn spec_attribute_header(pool: Pool, offset: int) -> ClassFileResult<AttributeHeader> {
    match spec_read_u16(pool.data, offset) {
        Err(e) => Err(e),
        Ok(name_index) => match spec_get_utf8_as_bytes(pool, name_index) {
            Err(e) => Err(e),
            Ok(name) => match spec_read_u32(pool.data, offset + 2) {
                Err(e) => Err(e),
                Ok(length) => Ok(
                    AttributeHeader {
                        known: spec_known_attribute(name),
                        payload: (offset + 6) as usize,
                        length,
                    },
                ),
            },
        },
    }
}

/// Decodes the header of the attribute that starts at `offset`.
pub fn read_attribute_header(pool: &ConstantPool, offset: usize) -> (r: ClassFileResult<AttributeHeader>)
    ensures
        r == spec_attribute_header(pool@, offset as int),
        r is Ok ==> r->Ok_0.payload == offset + 6 && offset + 6 <= pool@.data.len() <= usize::MAX,
        pool@.data.len() <= usize::MAX,
{
    let buffer = pool.buffer();
    let total: usize = buffer.len();
    let name = pool.get_utf8_as_bytes(buffer.read_u16(offset)?)?;
    let length: u32 = buffer.read_u32(offset + 2)?;
    Ok(AttributeHeader { known: KnownAttribute::from_name(name), payload: offset + 6, length })
}

/// Where the four lists of annotations of a construct stand: for each list
/// the number of its annotations and the offset of the first. An offset of
/// zero stands for a list that the construct does not have.
#[derive(Debug, Copy, Clone, PartialEq, Eq, Structural, Default)]
pub struct AnnotationOffsets {
    pub visible_count: u16,
    pub visible_offset: usize,
    pub invisible_count: u16,
    pub invisible_offset: usize,
    pub visible_type_count: u16,
    pub visible_type_offset: usize,
    pub invisible_type_count: u16,
    pub invisible_type_offset: usize,
}

impl DeepView for AnnotationOffsets {
    type V = AnnotationOffsets;

    open spec fn deep_view(&self) -> AnnotationOffsets {
        *self
    }
}

/// Whether `known` is one of the four lists of annotations.
pub open spec fn is_annotation_list(known: KnownAttribute) -> bool {
    known == KnownAttribute::RuntimeVisibleAnnotations || known == KnownAttribute::RuntimeInvisibleAnnotations
        || known == KnownAttribute::RuntimeVisibleTypeAnnotations || known
        == KnownAttribute::RuntimeInvisibleTypeAnnotations
}

impl AnnotationOffsets {
    /// No list at all.
    pub open spec fn spec_none() -> AnnotationOffsets {
        AnnotationOffsets {
            visible_count: 0,
            visible_offset: 0,
            invisible_count: 0,
            invisible_offset: 0,
            visible_type_count: 0,
            visible_type_offset: 0,
            invisible_type_count: 0,
            invisible_type_offset: 0,
        }
    }

    /// The offsets with the list `known` entered: `count` annotations that
    /// start at `offset`.
    pub open spec fn spec_with(self, known: KnownAttribute, count: u16, offset: usize) -> AnnotationOffsets {
        match known {
            KnownAttribute::RuntimeVisibleAnnotations => AnnotationOffsets {
                visible_count: count,
                visible_offset: offset,
                ..self
            },
            KnownAttribute::RuntimeInvisibleAnnotations => AnnotationOffsets {
                invisible_count: count,
                invisible_offset: offset,
                ..self
            },
            KnownAttribute::RuntimeVisibleTypeAnnotations => AnnotationOffsets {
                visible_type_count: count,
                visible_type_offset: offset,
                ..self
            },
            KnownAttribute::RuntimeInvisibleTypeAnnotations => AnnotationOffsets {
                invisible_type_count: count,
                invisible_type_offset: offset,
                ..self
            },
            _ => self,
        }
    }

    /// The offsets with the list `known` entered, whose payload starts at
    /// `payload`: the payload starts with the number of annotations.
    pub open spec fn spec_note(self, data: Seq<u8>, known: KnownAttribute, payload: int) -> ClassFileResult<
        AnnotationOffsets,
    > {
        match spec_read_u16(data, payload) {
            Err(e) => Err(e),
            Ok(count) => Ok(self.spec_with(known, count, (payload + 2) as usize)),
        }
    }

    /// Whether the construct has a list of annotations, visible or not.
    pub open spec fn spec_has_annotations(self) -> bool {
        self.visible_offset != 0 || self.invisible_offset != 0
    }

    /// Whether the construct has a list of type annotations, visible or not.
    pub open spec fn spec_has_type_annotations(self) -> bool {
        self.visible_type_offset != 0 || self.invisible_type_offset != 0
    }

    /// No list at all.
    pub fn none() -> (r: AnnotationOffsets)
        ensures
            r == AnnotationOffsets::spec_none(),
    {
        AnnotationOffsets {
            visible_count: 0,
            visible_offset: 0,
            invisible_count: 0,
            invisible_offset: 0,
            visible_type_count: 0,
            visible_type_offset: 0,
            invisible_type_count: 0,
            invisible_type_offset: 0,
        }
    }

    /// Enters the list `known`, whose payload starts at `payload`.
    pub(crate) fn note(&mut self, pool: &ConstantPool, known: KnownAttribute, payload: usize) -> (r: ClassFileResult<
        (),
    >)
        requires
            is_annotation_list(known),
        ensures
            r is Ok ==> old(self).spec_note(pool@.data, known, payload as int) == Ok::<
                AnnotationOffsets,
                ClassFileError,
            >(*final(self)),
            r is Err ==> old(self).spec_note(pool@.data, known, payload as int) == Err::<
                AnnotationOffsets,
                ClassFileError,
            >(r->Err_0) && *final(self) == *old(self),
    {
        let count: u16 = pool.buffer().read_u16(payload)?;
        let offset: usize = payload + 2;
        match known {
            KnownAttribute::RuntimeVisibleAnnotations => {
                self.visible_count = count;
                self.visible_offset = offset;
            },
            KnownAttribute::RuntimeInvisibleAnnotations => {
                self.invisible_count = count;
                self.invisible_offset = offset;
            },
            KnownAttribute::RuntimeVisibleTypeAnnotations => {
                self.visible_type_count = count;
                self.visible_type_offset = offset;
            },
            _ => {
                self.invisible_type_count = count;
                self.invisible_type_offset = offset;
            },
        }
        Ok(())
    }

    /// Whether the construct has a list of annotations, visible or not.
    #[verifier::when_used_as_spec(spec_has_annotations)]
    pub fn has_annotations(self) -> (r: bool)
        ensures
            r == self.spec_has_annotations(),
    {
        self.visible_offset != 0 || self.invisible_offset != 0
    }

    /// Whether the construct has a list of type annotations, visible or not.
    #[verifier::when_used_as_spec(spec_has_type_annotations)]
    pub fn has_type_annotations(self) -> (r: bool)
        ensures
            r == self.spec_has_type_annotations(),
    {
        self.visible_type_offset != 0 || self.invisible_type_offset != 0
    }

    /// A reader of the annotations.
    pub fn annotations<'reader, 'class>(&self, reader: &'reader ClassReader<'class>) -> (r:
        AnnotationReaderIterator<'reader, 'class>)
        ensures
            r == self.spec_annotations(reader),
    {
        AnnotationReaderIterator::new(
            reader,
            self.visible_count,
            self.visible_offset,
            self.invisible_count,
            self.invisible_offset,
        )
    }

    /// A reader of the type annotations.
    pub fn type_annotations<'reader, 'class>(&self, reader: &'reader ClassReader<'class>) -> (r:
        TypeAnnotationReaderIterator<'reader, 'class>)
        ensures
            r == self.spec_type_annotations(reader),
    {
        TypeAnnotationReaderIterator::new(
            reader,
            self.visible_type_count,
            self.visible_type_offset,
            self.invisible_type_count,
            self.invisible_type_offset,
        )
    }

    /// The reader of the annotations: it takes the visible list first.
    pub open spec fn spec_annotations<'reader, 'class>(
        self,
        reader: &'reader ClassReader<'class>,
    ) -> AnnotationReaderIterator<'reader, 'class> {
        AnnotationReaderIterator {
            reader,
            count: (self.visible_count + self.invisible_count) as usize,
            visible_remaining: self.visible_count,
            visible_offset: self.visible_offset,
            invisible_remaining: self.invisible_count,
            invisible_offset: self.invisible_offset,
        }
    }

    /// The reader of the type annotations: it takes the visible list first.
    pub open spec fn spec_type_annotations<'reader, 'class>(
        self,
        reader: &'reader ClassReader<'class>,
    ) -> TypeAnnotationReaderIterator<'reader, 'class> {
        TypeAnnotationReaderIterator {
            reader,
            count: (self.visible_type_count + self.invisible_type_count) as usize,
            visible_remaining: self.visible_type_count,
            visible_offset: self.visible_type_offset,
            invisible_remaining: self.invisible_type_count,
            invisible_offset: self.invisible_type_offset,
        }
    }
}

} // verus!
