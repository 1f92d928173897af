//! The small readers: each walks one counted list of the class file, or a
//! list that a decoder has already made.

use crate::access::{InnerClassAccess, ParameterAccess};
use crate::annotations::{
    read_annotation, read_type_annotation, spec_annotation, spec_type_annotation,
    TypeAnnotationCodeLocation,
};
use crate::attribute::{UnknownAttribute, UnknownAttributeView};
use crate::buffer::{read_at, spec_read_u16, spec_read_u32};
use crate::class_reader::ClassReader;
use crate::constant_pool::{
    spec_name_at, spec_optional_name_at, spec_optional_utf8_at, spec_utf8_at, ConstantPoolTag, Pool,
};
use crate::error::{ended, parsed, ClassFileError, ClassFileResult};
use crate::events::{
    AnnotationEvent, AnnotationEventView, ClassInnerClassEvent, ClassInnerClassEventView,
    MethodParameterEvent, MethodParameterEventView,
};
use crate::text::JavaText;
use crate::tree::annotation::{
    AnnotationNode, AnnotationNodeView, TypeAnnotationNode, TypeAnnotationNodeView,
};
use vstd::prelude::*;

verus! {

/// Hands out the items of a list that is already decoded, first item first.
/// No item fails.
#[derive(Debug)]
pub struct WrapWithResultReaderIterator<T> {
    /// The items still to come, the next one last.
    rest: Vec<T>,
}

impl<T> View for WrapWithResultReaderIterator<T> {
    type V = Seq<T>;

    /// The items still to come, the next one first.
    closed spec fn view(&self) -> Seq<T> {
        self.rest@.reverse()
    }
}

impl<T: DeepView> DeepView for WrapWithResultReaderIterator<T> {
    type V = Seq<T::V>;

    open spec fn deep_view(&self) -> Seq<T::V> {
        Seq::new(self@.len(), |i: int| self@[i].deep_view())
    }
}

impl<T> WrapWithResultReaderIterator<T> {
    /// A reader that hands out `items` in their order.
    pub fn new(items: Vec<T>) -> (r: Self)
        ensures
            r@ == items@,
    {
        let mut items = items;
        let ghost all = items@;
        let mut rest: Vec<T> = Vec::new();
        while items.len() > 0
            invariant
                items@.len() <= all.len(),
                rest@.len() + items@.len() == all.len(),
                items@ == all.subrange(0, items@.len() as int),
                forall|k: int| 0 <= k < rest@.len() ==> rest@[k] == all[all.len() - 1 - k],
            decreases items@.len(),
        {
            let ghost before = items@;
            let item = items.pop().unwrap();
            assert(items@ =~= all.subrange(0, items@.len() as int));
            rest.push(item);
        }
        let reader = WrapWithResultReaderIterator { rest };
        assert(reader@ =~= all);
        reader
    }

    /// The next item, or nothing behind the last one.
    pub fn next(&mut self) -> (r: Option<ClassFileResult<T>>)
        ensures
            old(self)@.len() == 0 ==> r is None && final(self)@ == old(self)@,
            old(self)@.len() > 0 ==> r == Some(Ok::<T, ClassFileError>(old(self)@[0])) && final(self)@ == old(
                self,
            )@.drop_first(),
    {
        let ghost before = self.rest@;
        match self.rest.pop() {
            None => None,
            Some(item) => {
                assert(self.rest@.reverse() =~= before.reverse().drop_first());
                Some(Ok(item))
            },
        }
    }

    /// The number of items that are still to come.
    pub fn len(&self) -> (n: usize)
        ensures
            n == self@.len(),
    {
        self.rest.len()
    }
}


/// The string whose slot number stands at `offset`, and the offset behind
/// the number.
pub open spec fn spec_string_item(pool: Pool, offset: int) -> ClassFileResult<(Seq<u8>, int)> {
    match spec_utf8_at(pool, offset) {
        Err(e) => Err(e),
        Ok(text) => Ok((text, offset + 2)),
    }
}

/// The name in the entry of kind `tag` whose slot number stands at `offset`,
/// and the offset behind the number.
pub open spec fn spec_name_item(pool: Pool, offset: int, tag: ConstantPoolTag) -> ClassFileResult<
    (Seq<u8>, int),
> {
    match spec_name_at(pool, offset, tag) {
        Err(e) => Err(e),
        Ok(text) => Ok((text, offset + 2)),
    }
}

/// The entry of the table of inner classes that starts at `offset`: the
/// slots of the class, of its outer class and of its simple name, the last
/// two of which may be zero, and its access flags.
pub open spec fn spec_inner_class(pool: Pool, offset: int) -> ClassFileResult<
    (ClassInnerClassEventView, int),
> {
    match spec_name_at(pool, offset, ConstantPoolTag::Class) {
        Err(e) => Err(e),
        Ok(name) => match spec_optional_name_at(pool, offset + 2, ConstantPoolTag::Class) {
            Err(e) => Err(e),
            Ok(outer_name) => match spec_optional_utf8_at(pool, offset + 4) {
                Err(e) => Err(e),
                Ok(inner_name) => match spec_read_u16(pool.data, offset + 6) {
                    Err(e) => Err(e),
                    Ok(bits) => Ok(
                        (
                            ClassInnerClassEventView {
                                name,
                                outer_name,
                                inner_name,
                                access: InnerClassAccess { bits },
                            },
                            offset + 8,
                        ),
                    ),
                },
            },
        },
    }
}

/// The parameter that starts at `offset`: the slot of its name, which may be
/// zero, and its flags.
pub open spec fn spec_parameter(pool: Pool, offset: int) -> ClassFileResult<
    (MethodParameterEventView, int),
> {
    match spec_optional_utf8_at(pool, offset) {
        Err(e) => Err(e),
        Ok(name) => match spec_read_u16(pool.data, offset + 2) {
            Err(e) => Err(e),
            Ok(bits) => Ok((MethodParameterEventView { name, access: ParameterAccess { bits } }, offset + 4)),
        },
    }
}

/// Decodes the string whose slot number stands at `offset`.
pub fn read_string_item(reader: &ClassReader, offset: usize) -> (r: ClassFileResult<(JavaText, usize)>)
    ensures
        parsed(r) == spec_string_item(reader@.pool, offset as int),
{
    let text = reader.constant_pool().utf8_at(offset)?;
    Ok((text, offset + 2))
}

/// Decodes the class name whose slot number stands at `offset`.
pub fn read_class_item(reader: &ClassReader, offset: usize) -> (r: ClassFileResult<(JavaText, usize)>)
    ensures
        parsed(r) == spec_name_item(reader@.pool, offset as int, ConstantPoolTag::Class),
{
    let text = reader.constant_pool().name_at(offset, ConstantPoolTag::Class)?;
    Ok((text, offset + 2))
}

/// Decodes the package name whose slot number stands at `offset`.
pub fn read_package_item(reader: &ClassReader, offset: usize) -> (r: ClassFileResult<(JavaText, usize)>)
    ensures
        parsed(r) == spec_name_item(reader@.pool, offset as int, ConstantPoolTag::Package),
{
    let text = reader.constant_pool().name_at(offset, ConstantPoolTag::Package)?;
    Ok((text, offset + 2))
}

/// Decodes the entry of the table of inner classes that starts at `offset`.
pub fn read_inner_class(reader: &ClassReader, offset: usize) -> (r: ClassFileResult<
    (ClassInnerClassEvent, usize),
>)
    ensures
        parsed(r) == spec_inner_class(reader@.pool, offset as int),
{
    let pool = reader.constant_pool();
    let name = pool.name_at(offset, ConstantPoolTag::Class)?;
    let outer_name = pool.optional_name_at(offset + 2, ConstantPoolTag::Class)?;
    let inner_name = pool.optional_utf8_at(offset + 4)?;
    let access = InnerClassAccess::from_bits_retain(pool.buffer().read_u16(offset + 6)?);
    Ok((ClassInnerClassEvent { name, outer_name, inner_name, access }, offset + 8))
}

/// Decodes the parameter that starts at `offset`.
pub fn read_parameter(reader: &ClassReader, offset: usize) -> (r: ClassFileResult<
    (MethodParameterEvent, usize),
>)
    ensures
        parsed(r) == spec_parameter(reader@.pool, offset as int),
{
    let pool = reader.constant_pool();
    let name = pool.optional_utf8_at(offset)?;
    let access = ParameterAccess::from_bits_retain(pool.buffer().read_u16(offset + 2)?);
    Ok((MethodParameterEvent { name, access }, offset + 4))
}

/// Walks a list of strings, each given by the slot of a string.
#[derive(Debug, Copy, Clone)]
pub struct StringsReaderIterator<'reader, 'class> {
    pub reader: &'reader ClassReader<'class>,
    /// The number of items of the list.
    pub count: u16,
    /// The number of items that are still to come.
    pub remaining: u16,
    /// Where the next item starts.
    pub offset: usize,
}

impl<'reader, 'class> StringsReaderIterator<'reader, 'class> {
    /// A reader of the `count` items that start at `offset`.
    pub fn new(reader: &'reader ClassReader<'class>, count: u16, offset: usize) -> (r: Self)
        ensures
            r == (Self { reader, count, remaining: count, offset }),
    {
        Self { reader, count, remaining: count, offset }
    }

    /// The next item, or nothing behind the last one. An item that
    /// fails to decode counts as read, and leaves the reader where it stood.
    pub fn next(&mut self) -> (r: Option<ClassFileResult<JavaText>>)
        ensures
            final(self).reader == old(self).reader,
            final(self).count == old(self).count,
            old(self).remaining == 0 ==> r is None && *final(self) == *old(self),
            old(self).remaining > 0 ==> r is Some && final(self).remaining == old(self).remaining - 1
                && ended(r->Some_0, final(self).offset) == spec_string_item(old(self).reader@.pool, old(self).offset as int)
                && (r->Some_0 is Err ==> final(self).offset == old(self).offset),
    {
        if self.remaining == 0 {
            return None;
        }
        self.remaining = self.remaining - 1;
        match read_string_item(self.reader, self.offset) {
            Ok((item, end)) => {
                self.offset = end;
                Some(Ok(item))
            },
            Err(e) => Some(Err(e)),
        }
    }

    /// The number of items of the list.
    pub fn len(&self) -> (n: usize)
        ensures
            n == self.count,
    {
        self.count as usize
    }
}

/// Walks a list of classes, each given by the slot of a class entry.
#[derive(Debug, Copy, Clone)]
pub struct ClassesReaderIterator<'reader, 'class> {
    pub reader: &'reader ClassReader<'class>,
    /// The number of items of the list.
    pub count: u16,
    /// The number of items that are still to come.
    pub remaining: u16,
    /// Where the next item starts.
    pub offset: usize,
}

impl<'reader, 'class> ClassesReaderIterator<'reader, 'class> {
    /// A reader of the `count` items that start at `offset`.
    pub fn new(reader: &'reader ClassReader<'class>, count: u16, offset: usize) -> (r: Self)
        ensures
            r == (Self { reader, count, remaining: count, offset }),
    {
        Self { reader, count, remaining: count, offset }
    }

    /// The next item, or nothing behind the last one. An item that
    /// fails to decode counts as read, and leaves the reader where it stood.
    pub fn next(&mut self) -> (r: Option<ClassFileResult<JavaText>>)
        ensures
            final(self).reader == old(self).reader,
            final(self).count == old(self).count,
            old(self).remaining == 0 ==> r is None && *final(self) == *old(self),
            old(self).remaining > 0 ==> r is Some && final(self).remaining == old(self).remaining - 1
                && ended(r->Some_0, final(self).offset) == spec_name_item(
                old(self).reader@.pool,
                old(self).offset as int,
                ConstantPoolTag::Class,
            )
                && (r->Some_0 is Err ==> final(self).offset == old(self).offset),
    {
        if self.remaining == 0 {
            return None;
        }
        self.remaining = self.remaining - 1;
        match read_class_item(self.reader, self.offset) {
            Ok((item, end)) => {
                self.offset = end;
                Some(Ok(item))
            },
            Err(e) => Some(Err(e)),
        }
    }

    /// The number of items of the list.
    pub fn len(&self) -> (n: usize)
        ensures
            n == self.count,
    {
        self.count as usize
    }
}

/// Walks a list of packages, each given by the slot of a package entry.
#[derive(Debug, Copy, Clone)]
pub struct PackagesReaderIterator<'reader, 'class> {
    pub reader: &'reader ClassReader<'class>,
    /// The number of items of the list.
    pub count: u16,
    /// The number of items that are still to come.
    pub remaining: u16,
    /// Where the next item starts.
    pub offset: usize,
}

impl<'reader, 'class> PackagesReaderIterator<'reader, 'class> {
    /// A reader of the `count` items that start at `offset`.
    pub fn new(reader: &'reader ClassReader<'class>, count: u16, offset: usize) -> (r: Self)
        ensures
            r == (Self { reader, count, remaining: count, offset }),
    {
        Self { reader, count, remaining: count, offset }
    }

    /// The next item, or nothing behind the last one. An item that
    /// fails to decode counts as read, and leaves the reader where it stood.
    pub fn next(&mut self) -> (r: Option<ClassFileResult<JavaText>>)
        ensures
            final(self).reader == old(self).reader,
            final(self).count == old(self).count,
            old(self).remaining == 0 ==> r is None && *final(self) == *old(self),
            old(self).remaining > 0 ==> r is Some && final(self).remaining == old(self).remaining - 1
                && ended(r->Some_0, final(self).offset) == spec_name_item(
                old(self).reader@.pool,
                old(self).offset as int,
                ConstantPoolTag::Package,
            )
                && (r->Some_0 is Err ==> final(self).offset == old(self).offset),
    {
        if self.remaining == 0 {
            return None;
        }
        self.remaining = self.remaining - 1;
        match read_package_item(self.reader, self.offset) {
            Ok((item, end)) => {
                self.offset = end;
                Some(Ok(item))
            },
            Err(e) => Some(Err(e)),
        }
    }

    /// The number of items of the list.
    pub fn len(&self) -> (n: usize)
        ensures
            n == self.count,
    {
        self.count as usize
    }
}

/// Walks the table of inner classes.
#[derive(Debug, Copy, Clone)]
pub struct ClassInnerClassesReaderIterator<'reader, 'class> {
    pub reader: &'reader ClassReader<'class>,
    /// The number of items of the list.
    pub count: u16,
    /// The number of items that are still to come.
    pub remaining: u16,
    /// Where the next item starts.
    pub offset: usize,
}

impl<'reader, 'class> ClassInnerClassesReaderIterator<'reader, 'class> {
    /// A reader of the `count` items that start at `offset`.
    pub fn new(reader: &'reader ClassReader<'class>, count: u16, offset: usize) -> (r: Self)
        ensures
            r == (Self { reader, count, remaining: count, offset }),
    {
        Self { reader, count, remaining: count, offset }
    }

    /// The next item, or nothing behind the last one. An item that
    /// fails to decode counts as read, and leaves the reader where it stood.
    pub fn next(&mut self) -> (r: Option<ClassFileResult<ClassInnerClassEvent>>)
        ensures
            final(self).reader == old(self).reader,
            final(self).count == old(self).count,
            old(self).remaining == 0 ==> r is None && *final(self) == *old(self),
            old(self).remaining > 0 ==> r is Some && final(self).remaining == old(self).remaining - 1
                && ended(r->Some_0, final(self).offset) == spec_inner_class(old(self).reader@.pool, old(self).offset as int)
                && (r->Some_0 is Err ==> final(self).offset == old(self).offset),
    {
        if self.remaining == 0 {
            return None;
        }
        self.remaining = self.remaining - 1;
        match read_inner_class(self.reader, self.offset) {
            Ok((item, end)) => {
                self.offset = end;
                Some(Ok(item))
            },
            Err(e) => Some(Err(e)),
        }
    }

    /// The number of items of the list.
    pub fn len(&self) -> (n: usize)
        ensures
            n == self.count,
    {
        self.count as usize
    }
}

/// Walks the formal parameters of a method.
#[derive(Debug, Copy, Clone)]
pub struct MethodParameterReaderIterator<'reader, 'class> {
    pub reader: &'reader ClassReader<'class>,
    /// The number of items of the list.
    pub count: u16,
    /// The number of items that are still to come.
    pub remaining: u16,
    /// Where the next item starts.
    pub offset: usize,
}

impl<'reader, 'class> MethodParameterReaderIterator<'reader, 'class> {
    /// A reader of the `count` items that start at `offset`.
    pub fn new(reader: &'reader ClassReader<'class>, count: u16, offset: usize) -> (r: Self)
        ensures
            r == (Self { reader, count, remaining: count, offset }),
    {
        Self { reader, count, remaining: count, offset }
    }

    /// The next item, or nothing behind the last one. An item that
    /// fails to decode counts as read, and leaves the reader where it stood.
    pub fn next(&mut self) -> (r: Option<ClassFileResult<MethodParameterEvent>>)
        ensures
            final(self).reader == old(self).reader,
            final(self).count == old(self).count,
            old(self).remaining == 0 ==> r is None && *final(self) == *old(self),
            old(self).remaining > 0 ==> r is Some && final(self).remaining == old(self).remaining - 1
                && ended(r->Some_0, final(self).offset) == spec_parameter(old(self).reader@.pool, old(self).offset as int)
                && (r->Some_0 is Err ==> final(self).offset == old(self).offset),
    {
        if self.remaining == 0 {
            return None;
        }
        self.remaining = self.remaining - 1;
        match read_parameter(self.reader, self.offset) {
            Ok((item, end)) => {
                self.offset = end;
                Some(Ok(item))
            },
            Err(e) => Some(Err(e)),
        }
    }

    /// The number of items of the list.
    pub fn len(&self) -> (n: usize)
        ensures
            n == self.count,
    {
        self.count as usize
    }
}

/// The annotation event that an annotation makes.
pub open spec fn spec_annotation_event(pool: Pool, visible: bool, offset: int) -> ClassFileResult<
    (AnnotationEventView<AnnotationNodeView>, int),
> {
    match spec_annotation(pool, offset, 0) {
        Err(e) => Err(e),
        Ok(found) => Ok((AnnotationEventView { visible, annotation: found.0 }, found.1)),
    }
}

/// The annotation event that a type annotation makes. The place in code
/// that the annotation names is left out.
pub open spec fn spec_type_annotation_event(pool: Pool, visible: bool, offset: int) -> ClassFileResult<
    (AnnotationEventView<TypeAnnotationNodeView>, int),
> {
    match spec_type_annotation(pool, offset) {
        Err(e) => Err(e),
        Ok(found) => Ok((AnnotationEventView { visible, annotation: found.0.0 }, found.1)),
    }
}

/// Walks the annotations of one construct: the visible ones first, then the
/// invisible ones.
#[derive(Debug, Copy, Clone)]
pub struct AnnotationReaderIterator<'reader, 'class> {
    pub reader: &'reader ClassReader<'class>,
    /// The number of annotations of both lists.
    pub count: usize,
    pub visible_remaining: u16,
    pub visible_offset: usize,
    pub invisible_remaining: u16,
    pub invisible_offset: usize,
}

impl<'reader, 'class> AnnotationReaderIterator<'reader, 'class> {
    pub fn new(
        reader: &'reader ClassReader<'class>,
        visible_count: u16,
        visible_offset: usize,
        invisible_count: u16,
        invisible_offset: usize,
    ) -> (r: Self)
        ensures
            r == (Self {
                reader,
                count: (visible_count + invisible_count) as usize,
                visible_remaining: visible_count,
                visible_offset,
                invisible_remaining: invisible_count,
                invisible_offset,
            }),
    {
        Self {
            reader,
            count: visible_count as usize + invisible_count as usize,
            visible_remaining: visible_count,
            visible_offset,
            invisible_remaining: invisible_count,
            invisible_offset,
        }
    }

    /// Decodes the annotation that starts at `offset`.
    pub fn event(reader: &ClassReader, visible: bool, offset: usize) -> (r: ClassFileResult<
        (AnnotationEvent<AnnotationNode>, usize),
    >)
        ensures
            parsed(r) == spec_annotation_event(reader@.pool, visible, offset as int),
    {
        let (annotation, end) = read_annotation(reader.constant_pool(), offset, 0)?;
        Ok((AnnotationEvent { visible, annotation }, end))
    }

    /// The next annotation, or nothing behind the last one. An annotation
    /// that fails to decode counts as read, and leaves the reader where it
    /// stood in its list.
    pub fn next(&mut self) -> (r: Option<ClassFileResult<AnnotationEvent<AnnotationNode>>>)
        ensures
            final(self).reader == old(self).reader,
            final(self).count == old(self).count,
            old(self).visible_remaining != 0 ==> r is Some
                && final(self).visible_remaining == old(self).visible_remaining - 1
                && final(self).invisible_remaining == old(self).invisible_remaining
                && final(self).invisible_offset == old(self).invisible_offset
                && ended(r->Some_0, final(self).visible_offset) == spec_annotation_event(
                old(self).reader@.pool,
                true,
                old(self).visible_offset as int,
            ) && (r->Some_0 is Err ==> final(self).visible_offset == old(self).visible_offset),
            old(self).visible_remaining == 0 && old(self).invisible_remaining != 0 ==> r is Some
                && final(self).invisible_remaining == old(self).invisible_remaining - 1
                && final(self).visible_remaining == 0
                && final(self).visible_offset == old(self).visible_offset
                && ended(r->Some_0, final(self).invisible_offset) == spec_annotation_event(
                old(self).reader@.pool,
                false,
                old(self).invisible_offset as int,
            ) && (r->Some_0 is Err ==> final(self).invisible_offset == old(self).invisible_offset),
            old(self).visible_remaining == 0 && old(self).invisible_remaining == 0 ==> r is None
                && *final(self) == *old(self),
    {
        if self.visible_remaining != 0 {
            self.visible_remaining = self.visible_remaining - 1;
            match Self::event(self.reader, true, self.visible_offset) {
                Ok((event, end)) => {
                    self.visible_offset = end;
                    Some(Ok(event))
                },
                Err(e) => Some(Err(e)),
            }
        } else if self.invisible_remaining != 0 {
            self.invisible_remaining = self.invisible_remaining - 1;
            match Self::event(self.reader, false, self.invisible_offset) {
                Ok((event, end)) => {
                    self.invisible_offset = end;
                    Some(Ok(event))
                },
                Err(e) => Some(Err(e)),
            }
        } else {
            None
        }
    }

    /// The number of annotations of both lists.
    pub fn len(&self) -> (n: usize)
        ensures
            n == self.count,
    {
        self.count
    }
}

/// Walks the type annotations of one construct: the visible ones first, then
/// the invisible ones.
#[derive(Debug, Copy, Clone)]
pub struct TypeAnnotationReaderIterator<'reader, 'class> {
    pub reader: &'reader ClassReader<'class>,
    /// The number of annotations of both lists.
    pub count: usize,
    pub visible_remaining: u16,
    pub visible_offset: usize,
    pub invisible_remaining: u16,
    pub invisible_offset: usize,
}

impl<'reader, 'class> TypeAnnotationReaderIterator<'reader, 'class> {
    pub fn new(
        reader: &'reader ClassReader<'class>,
        visible_count: u16,
        visible_offset: usize,
        invisible_count: u16,
        invisible_offset: usize,
    ) -> (r: Self)
        ensures
            r == (Self {
                reader,
                count: (visible_count + invisible_count) as usize,
                visible_remaining: visible_count,
                visible_offset,
                invisible_remaining: invisible_count,
                invisible_offset,
            }),
    {
        Self {
            reader,
            count: visible_count as usize + invisible_count as usize,
            visible_remaining: visible_count,
            visible_offset,
            invisible_remaining: invisible_count,
            invisible_offset,
        }
    }

    /// Decodes the type annotation that starts at `offset`.
    pub fn event(reader: &ClassReader, visible: bool, offset: usize) -> (r: ClassFileResult<
        (AnnotationEvent<TypeAnnotationNode>, usize),
    >)
        ensures
            parsed(r) == spec_type_annotation_event(reader@.pool, visible, offset as int),
    {
        let ((annotation, _), end) = read_type_annotation(reader.constant_pool(), offset)?;
        Ok((AnnotationEvent { visible, annotation }, end))
    }

    /// The next annotation, or nothing behind the last one. An annotation
    /// that fails to decode counts as read, and leaves the reader where it
    /// stood in its list.
    pub fn next(&mut self) -> (r: Option<ClassFileResult<AnnotationEvent<TypeAnnotationNode>>>)
        ensures
            final(self).reader == old(self).reader,
            final(self).count == old(self).count,
            old(self).visible_remaining != 0 ==> r is Some
                && final(self).visible_remaining == old(self).visible_remaining - 1
                && final(self).invisible_remaining == old(self).invisible_remaining
                && final(self).invisible_offset == old(self).invisible_offset
                && ended(r->Some_0, final(self).visible_offset) == spec_type_annotation_event(
                old(self).reader@.pool,
                true,
                old(self).visible_offset as int,
            ) && (r->Some_0 is Err ==> final(self).visible_offset == old(self).visible_offset),
            old(self).visible_remaining == 0 && old(self).invisible_remaining != 0 ==> r is Some
                && final(self).invisible_remaining == old(self).invisible_remaining - 1
                && final(self).visible_remaining == 0
                && final(self).visible_offset == old(self).visible_offset
                && ended(r->Some_0, final(self).invisible_offset) == spec_type_annotation_event(
                old(self).reader@.pool,
                false,
                old(self).invisible_offset as int,
            ) && (r->Some_0 is Err ==> final(self).invisible_offset == old(self).invisible_offset),
            old(self).visible_remaining == 0 && old(self).invisible_remaining == 0 ==> r is None
                && *final(self) == *old(self),
    {
        if self.visible_remaining != 0 {
            self.visible_remaining = self.visible_remaining - 1;
            match Self::event(self.reader, true, self.visible_offset) {
                Ok((event, end)) => {
                    self.visible_offset = end;
                    Some(Ok(event))
                },
                Err(e) => Some(Err(e)),
            }
        } else if self.invisible_remaining != 0 {
            self.invisible_remaining = self.invisible_remaining - 1;
            match Self::event(self.reader, false, self.invisible_offset) {
                Ok((event, end)) => {
                    self.invisible_offset = end;
                    Some(Ok(event))
                },
                Err(e) => Some(Err(e)),
            }
        } else {
            None
        }
    }

    /// The number of annotations of both lists.
    pub fn len(&self) -> (n: usize)
        ensures
            n == self.count,
    {
        self.count
    }
}

/// The attribute that starts at `offset`, as the file holds it: the slot of
/// its name, the length of its payload in four bytes, and the payload.
pub open spec fn spec_custom_attribute(pool: Pool, offset: int) -> ClassFileResult<UnknownAttributeView> {
    match spec_utf8_at(pool, offset) {
        Err(e) => Err(e),
        Ok(name) => match spec_read_u32(pool.data, offset + 2) {
            Err(e) => Err(e),
            Ok(len) => if offset + 6 + len <= pool.data.len() {
                Ok(UnknownAttributeView { name, data: pool.data.subrange(offset + 6, offset + 6 + len) })
            } else {
                Err(
                    ClassFileError::OutOfBounds {
                        index: pool.data.len() as usize,
                        len: pool.data.len() as usize,
                    },
                )
            },
        },
    }
}

/// Walks the attributes of one construct that the reader does not decode
/// itself.
#[derive(Debug)]
pub struct CustomAttributeReaderIterator<'reader, 'class> {
    pub reader: &'reader ClassReader<'class>,
    /// The index of the next attribute.
    pub index: usize,
    /// Where each attribute starts.
    pub offsets: Vec<usize>,
}

pub struct CustomAttributeReaderIteratorView<'reader, 'class> {
    pub reader: &'reader ClassReader<'class>,
    pub index: usize,
    pub offsets: Seq<usize>,
}

impl<'reader, 'class> DeepView for CustomAttributeReaderIterator<'reader, 'class> {
    type V = CustomAttributeReaderIteratorView<'reader, 'class>;

    open spec fn deep_view(&self) -> CustomAttributeReaderIteratorView<'reader, 'class> {
        CustomAttributeReaderIteratorView { reader: self.reader, index: self.index, offsets: self.offsets@ }
    }
}

impl<'reader, 'class> CustomAttributeReaderIterator<'reader, 'class> {
    /// A reader of the attributes that start at `offsets`.
    pub fn new(reader: &'reader ClassReader<'class>, offsets: Vec<usize>) -> (r: Self)
        ensures
            r.reader == reader,
            r.index == 0,
            r.offsets@ == offsets@,
    {
        CustomAttributeReaderIterator { reader, index: 0, offsets }
    }

    /// Decodes the attribute that starts at `offset`.
    pub fn read(&self, offset: usize) -> (r: ClassFileResult<UnknownAttribute>)
        ensures
            crate::error::deep(r) == spec_custom_attribute(self.reader@.pool, offset as int),
    {
        let pool = self.reader.constant_pool();
        let buffer = pool.buffer();
        let name = pool.utf8_at(offset)?;
        let len: usize = buffer.read_u32(offset + 2)? as usize;
        let start: usize = offset + 6;
        let end: usize = buffer.advance(start, len);
        if len > buffer.len() - start {
            return Err(ClassFileError::OutOfBounds { index: buffer.len(), len: buffer.len() });
        }
        let payload = buffer.slice(start, end)?;
        Ok(UnknownAttribute { name, data: vstd::slice::slice_to_vec(payload.as_bytes()) })
    }

    /// The next attribute, or nothing behind the last one.
    pub fn next(&mut self) -> (r: Option<ClassFileResult<UnknownAttribute>>)
        ensures
            final(self).reader == old(self).reader,
            final(self).offsets@ == old(self).offsets@,
            old(self).index >= old(self).offsets@.len() ==> r is None && final(self).index == old(self).index,
            old(self).index < old(self).offsets@.len() ==> r is Some && final(self).index == old(self).index + 1
                && crate::error::deep(r->Some_0) == spec_custom_attribute(
                old(self).reader@.pool,
                old(self).offsets@[old(self).index as int] as int,
            ),
    {
        if self.index >= self.offsets.len() {
            return None;
        }
        let offset: usize = self.offsets[self.index];
        self.index = self.index + 1;
        Some(self.read(offset))
    }

    /// The number of attributes.
    pub fn len(&self) -> (n: usize)
        ensures
            n == self.offsets@.len(),
    {
        self.offsets.len()
    }
}

} // verus!
