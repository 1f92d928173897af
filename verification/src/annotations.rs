//! Decoding of annotations and of type annotations.

use crate::buffer::{read_at, spec_read_u16, spec_read_u8};
use crate::constant_pool::{
    spec_get_f32, spec_get_f64, spec_get_i32, spec_get_i64, spec_utf8_at, ConstantPool, Pool,
};
use crate::constants::MAX_ANNOTATION_NESTING;
use crate::error::{parsed, ClassFileError, ClassFileResult};
use crate::text::JavaText;
use crate::tree::annotation::{
    elements_view, lemma_annotation_view, lemma_array_view, members_view, AnnotationNode,
    AnnotationNodeView, AnnotationValue, AnnotationValueView, TypeAnnotationNode,
    TypeAnnotationNodeView,
};
use crate::type_annotation::{spec_steps, TypePath, TypePathStep, TypeReference};
use vstd::prelude::*;

verus! {

/// The value that the entry gives whose slot number stands at `offset`.
pub open spec fn via_index<T>(data: Seq<u8>, offset: int, get: spec_fn(u16) -> ClassFileResult<T>) -> ClassFileResult<
    T,
> {
    match spec_read_u16(data, offset) {
        Err(e) => Err(e),
        Ok(index) => get(index),
    }
}

/// A primitive value of an element, which takes the tag byte and a slot
/// number: the value that `wrap` makes of the constant, and the offset
/// behind it.
pub open spec fn constant_value<T>(
    constant: ClassFileResult<T>,
    wrap: spec_fn(T) -> AnnotationValueView,
    offset: int,
) -> ClassFileResult<(AnnotationValueView, int)> {
    match constant {
        Err(e) => Err(e),
        Ok(v) => Ok((wrap(v), offset + 3)),
    }
}

/// How many more levels of nesting may follow at depth `depth`.
pub open spec fn levels_left(depth: int) -> int {
    if depth <= MAX_ANNOTATION_NESTING {
        MAX_ANNOTATION_NESTING + 1 - depth
    } else {
        0
    }
}

/// The value of an element that starts at `offset`, and the offset behind
/// it. The tag byte says what follows: for `B C D F I J S Z` the slot of a
/// constant, for `s` and `c` the slot of a string, for `e` the slots of two
/// strings, for `@` an annotation and for `[` a counted list of values.
pub open spec fn spec_annotation_value(pool: Pool, offset: int, depth: int) -> ClassFileResult<
    (AnnotationValueView, int),
>
    decreases levels_left(depth), 0int, 0int,
{
    match spec_read_u8(pool.data, offset) {
        Err(e) => Err(e),
        Ok(tag) => if tag == 66 {
            constant_value(
                via_index(pool.data, offset + 1, |i: u16| spec_get_i32(pool, i)),
                |v: i32| AnnotationValueView::Byte(v as i8),
                offset,
            )
        } else if tag == 67 {
            constant_value(
                via_index(pool.data, offset + 1, |i: u16| spec_get_i32(pool, i)),
                |v: i32| AnnotationValueView::Char(v as u16),
                offset,
            )
        } else if tag == 68 {
            constant_value(
                via_index(pool.data, offset + 1, |i: u16| spec_get_f64(pool, i)),
                |v: u64| AnnotationValueView::Double(v),
                offset,
            )
        } else if tag == 70 {
            constant_value(
                via_index(pool.data, offset + 1, |i: u16| spec_get_f32(pool, i)),
                |v: u32| AnnotationValueView::Float(v),
                offset,
            )
        } else if tag == 73 {
            constant_value(
                via_index(pool.data, offset + 1, |i: u16| spec_get_i32(pool, i)),
                |v: i32| AnnotationValueView::Int(v),
                offset,
            )
        } else if tag == 74 {
            constant_value(
                via_index(pool.data, offset + 1, |i: u16| spec_get_i64(pool, i)),
                |v: i64| AnnotationValueView::Long(v),
                offset,
            )
        } else if tag == 83 {
            constant_value(
                via_index(pool.data, offset + 1, |i: u16| spec_get_i32(pool, i)),
                |v: i32| AnnotationValueView::Short(v as i16),
                offset,
            )
        } else if tag == 90 {
            constant_value(
                via_index(pool.data, offset + 1, |i: u16| spec_get_i32(pool, i)),
                |v: i32| AnnotationValueView::Boolean(v != 0),
                offset,
            )
        } else if tag == 115 {
            constant_value(
                spec_utf8_at(pool, offset + 1),
                |v: Seq<u8>| AnnotationValueView::String(v),
                offset,
            )
        } else if tag == 101 {
            match spec_utf8_at(pool, offset + 1) {
                Err(e) => Err(e),
                Ok(desc) => match spec_utf8_at(pool, offset + 3) {
                    Err(e) => Err(e),
                    Ok(name) => Ok((AnnotationValueView::Enum { desc, name }, offset + 5)),
                },
            }
        } else if tag == 99 {
            constant_value(
                spec_utf8_at(pool, offset + 1),
                |v: Seq<u8>| AnnotationValueView::Class(v),
                offset,
            )
        } else if tag == 64 {
            if depth >= MAX_ANNOTATION_NESTING {
                Err(ClassFileError::TooDeepAnnotationNesting)
            } else {
                match spec_annotation(pool, offset + 1, depth + 1) {
                    Err(e) => Err(e),
                    Ok(found) => Ok((AnnotationValueView::Annotation(found.0), found.1)),
                }
            }
        } else if tag == 91 {
            if depth >= MAX_ANNOTATION_NESTING {
                Err(ClassFileError::TooDeepAnnotationNesting)
            } else {
                match spec_annotation_array(pool, offset + 1, depth + 1) {
                    Err(e) => Err(e),
                    Ok(found) => Ok((AnnotationValueView::Array(found.0), found.1)),
                }
            }
        } else {
            Err(ClassFileError::BadAnnotationTag(tag))
        },
    }
}

/// The annotation that starts at `offset`: the slot of its descriptor, then
/// its elements.
pub open spec fn spec_annotation(pool: Pool, offset: int, depth: int) -> ClassFileResult<
    (AnnotationNodeView, int),
>
    decreases levels_left(depth), 3int, 0int,
{
    if depth > MAX_ANNOTATION_NESTING {
        Err(ClassFileError::TooDeepAnnotationNesting)
    } else {
        match spec_utf8_at(pool, offset) {
            Err(e) => Err(e),
            Ok(desc) => match spec_annotation_values(pool, offset + 2, depth) {
                Err(e) => Err(e),
                Ok(found) => Ok((AnnotationNodeView { desc, values: found.0 }, found.1)),
            },
        }
    }
}

/// The elements that start at `offset`: their number, then each with the
/// slot of its name and its value.
pub open spec fn spec_annotation_values(pool: Pool, offset: int, depth: int) -> ClassFileResult<
    (Seq<(Seq<u8>, AnnotationValueView)>, int),
>
    decreases levels_left(depth), 2int, 0int,
{
    match spec_read_u16(pool.data, offset) {
        Err(e) => Err(e),
        Ok(count) => spec_elements_from(pool, offset + 2, depth, count as int, Seq::empty()),
    }
}

/// The elements found so far and the `remaining` ones that start at `offset`.
pub open spec fn spec_elements_from(
    pool: Pool,
    offset: int,
    depth: int,
    remaining: int,
    found: Seq<(Seq<u8>, AnnotationValueView)>,
) -> ClassFileResult<(Seq<(Seq<u8>, AnnotationValueView)>, int)>
    decreases levels_left(depth), 1int, remaining,
{
    if remaining <= 0 {
        Ok((found, offset))
    } else {
        match spec_utf8_at(pool, offset) {
            Err(e) => Err(e),
            Ok(name) => match spec_annotation_value(pool, offset + 2, depth) {
                Err(e) => Err(e),
                Ok(value) => spec_elements_from(
                    pool,
                    value.1,
                    depth,
                    remaining - 1,
                    found.push((name, value.0)),
                ),
            },
        }
    }
}

/// The array value that starts at `offset`: the number of its members, then
/// each member.
pub open spec fn spec_annotation_array(pool: Pool, offset: int, depth: int) -> ClassFileResult<
    (Seq<AnnotationValueView>, int),
>
    decreases levels_left(depth), 2int, 0int,
{
    if depth > MAX_ANNOTATION_NESTING {
        Err(ClassFileError::TooDeepAnnotationNesting)
    } else {
        match spec_read_u16(pool.data, offset) {
            Err(e) => Err(e),
            Ok(count) => spec_members_from(pool, offset + 2, depth, count as int, Seq::empty()),
        }
    }
}

/// The members found so far and the `remaining` ones that start at `offset`.
pub open spec fn spec_members_from(
    pool: Pool,
    offset: int,
    depth: int,
    remaining: int,
    found: Seq<AnnotationValueView>,
) -> ClassFileResult<(Seq<AnnotationValueView>, int)>
    decreases levels_left(depth), 1int, remaining,
{
    if remaining <= 0 {
        Ok((found, offset))
    } else {
        match spec_annotation_value(pool, offset, depth) {
            Err(e) => Err(e),
            Ok(value) => spec_members_from(pool, value.1, depth, remaining - 1, found.push(value.0)),
        }
    }
}

/// The low eight bits of a constant, as a signed number.
fn low_i8(v: i32) -> (r: i8)
    ensures
        r == v as i8,
{
    #[verifier::truncate]
    (v as i8)
}

/// The low sixteen bits of a constant, as a signed number.
fn low_i16(v: i32) -> (r: i16)
    ensures
        r == v as i16,
{
    #[verifier::truncate]
    (v as i16)
}

/// The low sixteen bits of a constant.
fn low_u16(v: i32) -> (r: u16)
    ensures
        r == v as u16,
{
    #[verifier::truncate]
    (v as u16)
}

/// Decodes the value of an element that starts at `offset`.
pub fn read_annotation_value(pool: &ConstantPool, offset: usize, depth: u16) -> (r: ClassFileResult<
    (AnnotationValue, usize),
>)
    ensures
        parsed(r) == spec_annotation_value(pool@, offset as int, depth as int),
        r is Ok ==> r->Ok_0.1 <= pool@.data.len() <= usize::MAX,
    decreases levels_left(depth as int), 0int, 0int,
{
    let buffer = pool.buffer();
    let tag: u8 = buffer.read_u8(offset)?;
    match tag {
        66 => {
            let v: i32 = pool.get_i32(buffer.read_u16(offset + 1)?)?;
            Ok((AnnotationValue::Byte(low_i8(v)), offset + 3))
        },
        67 => {
            let v: i32 = pool.get_i32(buffer.read_u16(offset + 1)?)?;
            Ok((AnnotationValue::Char(low_u16(v)), offset + 3))
        },
        68 => {
            let v: u64 = pool.get_f64(buffer.read_u16(offset + 1)?)?;
            Ok((AnnotationValue::Double(v), offset + 3))
        },
        70 => {
            let v: u32 = pool.get_f32(buffer.read_u16(offset + 1)?)?;
            Ok((AnnotationValue::Float(v), offset + 3))
        },
        73 => {
            let v: i32 = pool.get_i32(buffer.read_u16(offset + 1)?)?;
            Ok((AnnotationValue::Int(v), offset + 3))
        },
        74 => {
            let v: i64 = pool.get_i64(buffer.read_u16(offset + 1)?)?;
            Ok((AnnotationValue::Long(v), offset + 3))
        },
        83 => {
            let v: i32 = pool.get_i32(buffer.read_u16(offset + 1)?)?;
            Ok((AnnotationValue::Short(low_i16(v)), offset + 3))
        },
        90 => {
            let v: i32 = pool.get_i32(buffer.read_u16(offset + 1)?)?;
            Ok((AnnotationValue::Boolean(v != 0), offset + 3))
        },
        115 => {
            let v = pool.utf8_at(offset + 1)?;
            Ok((AnnotationValue::String(v), offset + 3))
        },
        101 => {
            let desc = pool.utf8_at(offset + 1)?;
            let name = pool.utf8_at(offset + 3)?;
            Ok((AnnotationValue::Enum { desc, name }, offset + 5))
        },
        99 => {
            let v = pool.utf8_at(offset + 1)?;
            Ok((AnnotationValue::Class(v), offset + 3))
        },
        64 => {
            if depth >= MAX_ANNOTATION_NESTING {
                return Err(ClassFileError::TooDeepAnnotationNesting);
            }
            let (node, end) = read_annotation(pool, offset + 1, depth + 1)?;
            Ok((AnnotationValue::Annotation(node), end))
        },
        91 => {
            if depth >= MAX_ANNOTATION_NESTING {
                return Err(ClassFileError::TooDeepAnnotationNesting);
            }
            let (members, end) = read_annotation_array(pool, offset + 1, depth + 1)?;
            proof {
                lemma_array_view(members);
            }
            Ok((AnnotationValue::Array(members), end))
        },
        _ => Err(ClassFileError::BadAnnotationTag(tag)),
    }
}

/// Decodes the annotation that starts at `offset`.
pub fn read_annotation(pool: &ConstantPool, offset: usize, depth: u16) -> (r: ClassFileResult<
    (AnnotationNode, usize),
>)
    ensures
        parsed(r) == spec_annotation(pool@, offset as int, depth as int),
        r is Ok ==> r->Ok_0.1 <= pool@.data.len() <= usize::MAX,
    decreases levels_left(depth as int), 3int, 0int,
{
    if depth > MAX_ANNOTATION_NESTING {
        return Err(ClassFileError::TooDeepAnnotationNesting);
    }
    let desc = pool.utf8_at(offset)?;
    let (values, end) = read_annotation_values(pool, offset + 2, depth)?;
    proof {
        lemma_annotation_view(desc, values);
    }
    Ok((AnnotationNode { desc, values }, end))
}

/// Decodes the elements that start at `offset`.
pub fn read_annotation_values(pool: &ConstantPool, offset: usize, depth: u16) -> (r: ClassFileResult<
    (Vec<(JavaText, AnnotationValue)>, usize),
>)
    ensures
        r is Ok ==> spec_annotation_values(pool@, offset as int, depth as int) == Ok::<
            (Seq<(Seq<u8>, AnnotationValueView)>, int),
            ClassFileError,
        >((elements_view(r->Ok_0.0@), r->Ok_0.1 as int)),
        r is Err ==> spec_annotation_values(pool@, offset as int, depth as int) == Err::<
            (Seq<(Seq<u8>, AnnotationValueView)>, int),
            ClassFileError,
        >(r->Err_0),
        r is Ok ==> r->Ok_0.1 <= pool@.data.len() <= usize::MAX,
    decreases levels_left(depth as int), 2int, 0int,
{
    let num_values: u16 = pool.buffer().read_u16(offset)?;
    let mut values: Vec<(JavaText, AnnotationValue)> = Vec::new();
    let mut at: usize = offset + 2;
    let mut i: u16 = 0;
    assert(elements_view(values@) =~= Seq::empty());
    while i < num_values
        invariant
            i <= num_values,
            at <= pool@.data.len() <= usize::MAX,
            spec_annotation_values(pool@, offset as int, depth as int) == spec_elements_from(
                pool@,
                at as int,
                depth as int,
                num_values - i,
                elements_view(values@),
            ),
        decreases num_values - i,
    {
        let name = pool.utf8_at(at)?;
        let (value, end) = read_annotation_value(pool, at + 2, depth)?;
        let ghost before = values@;
        let ghost added = (name@, value.deep_view());
        values.push((name, value));
        assert(elements_view(values@) =~= elements_view(before).push(added));
        at = end;
        i = i + 1;
    }
    Ok((values, at))
}

/// Decodes the array value that starts at `offset`.
pub fn read_annotation_array(pool: &ConstantPool, offset: usize, depth: u16) -> (r: ClassFileResult<
    (Vec<AnnotationValue>, usize),
>)
    ensures
        r is Ok ==> spec_annotation_array(pool@, offset as int, depth as int) == Ok::<
            (Seq<AnnotationValueView>, int),
            ClassFileError,
        >((members_view(r->Ok_0.0@), r->Ok_0.1 as int)),
        r is Err ==> spec_annotation_array(pool@, offset as int, depth as int) == Err::<
            (Seq<AnnotationValueView>, int),
            ClassFileError,
        >(r->Err_0),
        r is Ok ==> r->Ok_0.1 <= pool@.data.len() <= usize::MAX,
    decreases levels_left(depth as int), 2int, 0int,
{
    if depth > MAX_ANNOTATION_NESTING {
        return Err(ClassFileError::TooDeepAnnotationNesting);
    }
    let num_values: u16 = pool.buffer().read_u16(offset)?;
    let mut values: Vec<AnnotationValue> = Vec::new();
    let mut at: usize = offset + 2;
    let mut i: u16 = 0;
    assert(members_view(values@) =~= Seq::empty());
    while i < num_values
        invariant
            i <= num_values,
            depth <= MAX_ANNOTATION_NESTING,
            at <= pool@.data.len() <= usize::MAX,
            spec_annotation_array(pool@, offset as int, depth as int) == spec_members_from(
                pool@,
                at as int,
                depth as int,
                num_values - i,
                members_view(values@),
            ),
        decreases num_values - i,
    {
        let (value, end) = read_annotation_value(pool, at, depth)?;
        let ghost before = values@;
        let ghost added = value.deep_view();
        values.push(value);
        assert(members_view(values@) =~= members_view(before).push(added));
        at = end;
        i = i + 1;
    }
    Ok((values, at))
}

/// A stretch of code in which a local variable lives, as a type annotation
/// names it: where it starts, how long it is, and the variable's index.
#[derive(Debug, Copy, Clone, PartialEq, Eq, Structural, PartialOrd, Ord, Hash)]
pub struct TypeAnnotationLocalVariableRange {
    pub start_pc: u16,
    pub length: u16,
    pub index: u16,
}

/// The place in the code of a method that a type annotation belongs to.
#[derive(Debug, Clone, PartialEq, Eq)]
pub enum TypeAnnotationCodeLocation {
    /// No place in code.
    NotInCode,
    /// The stretches of code in which a local variable lives.
    LocalVariable(Vec<TypeAnnotationLocalVariableRange>),
    /// The instruction at this offset.
    Insn(u16),
    /// The try-catch block with this index.
    TryCatchBlock(u16),
}

pub enum TypeAnnotationCodeLocationView {
    NotInCode,
    LocalVariable(Seq<TypeAnnotationLocalVariableRange>),
    Insn(u16),
    TryCatchBlock(u16),
}

impl DeepView for TypeAnnotationCodeLocation {
    type V = TypeAnnotationCodeLocationView;

    open spec fn deep_view(&self) -> TypeAnnotationCodeLocationView {
        match self {
            TypeAnnotationCodeLocation::NotInCode => TypeAnnotationCodeLocationView::NotInCode,
            TypeAnnotationCodeLocation::LocalVariable(v) => TypeAnnotationCodeLocationView::LocalVariable(v@),
            TypeAnnotationCodeLocation::Insn(v) => TypeAnnotationCodeLocationView::Insn(*v),
            TypeAnnotationCodeLocation::TryCatchBlock(v) => TypeAnnotationCodeLocationView::TryCatchBlock(
                *v,
            ),
        }
    }
}

/// The `remaining` ranges that start at `offset`, behind those found so far:
/// each is three numbers of sixteen bits.
pub open spec fn spec_ranges_from(
    data: Seq<u8>,
    offset: int,
    remaining: int,
    found: Seq<TypeAnnotationLocalVariableRange>,
) -> ClassFileResult<(Seq<TypeAnnotationLocalVariableRange>, int)>
    decreases remaining,
{
    if remaining <= 0 {
        Ok((found, offset))
    } else {
        match spec_read_u16(data, offset) {
            Err(e) => Err(e),
            Ok(start_pc) => match spec_read_u16(data, offset + 2) {
                Err(e) => Err(e),
                Ok(length) => match spec_read_u16(data, offset + 4) {
                    Err(e) => Err(e),
                    Ok(index) => spec_ranges_from(
                        data,
                        offset + 6,
                        remaining - 1,
                        found.push(TypeAnnotationLocalVariableRange { start_pc, length, index }),
                    ),
                },
            },
        }
    }
}

/// The table of ranges that starts at `offset`: its length, then the ranges.
pub open spec fn spec_local_variable(data: Seq<u8>, offset: int) -> ClassFileResult<
    (Seq<TypeAnnotationLocalVariableRange>, int),
> {
    match spec_read_u16(data, offset) {
        Err(e) => Err(e),
        Ok(count) => spec_ranges_from(data, offset + 2, count as int, Seq::empty()),
    }
}

/// The reference of the kind `target` whose one operand byte is `operand`.
pub open spec fn spec_reference_u8(target: u8, operand: u8) -> TypeReference {
    if target == 0x00 {
        TypeReference::ClassTypeParameter { param_index: operand }
    } else if target == 0x01 {
        TypeReference::MethodTypeParameter { param_index: operand }
    } else if target == 0x16 {
        TypeReference::MethodFormalParameter { param_index: operand }
    } else if target == 0x47 {
        TypeReference::Cast { arg_index: operand }
    } else if target == 0x48 {
        TypeReference::ConstructorInvocationTypeArgument { arg_index: operand }
    } else if target == 0x49 {
        TypeReference::MethodInvocationTypeArgument { arg_index: operand }
    } else if target == 0x4A {
        TypeReference::ConstructorReferenceTypeArgument { arg_index: operand }
    } else {
        TypeReference::MethodReferenceTypeArgument { arg_index: operand }
    }
}

/// The reference of the kind `target` that has no operand of its own.
pub open spec fn spec_reference_plain(target: u8) -> TypeReference {
    if target == 0x13 {
        TypeReference::Field
    } else if target == 0x14 {
        TypeReference::MethodReturn
    } else if target == 0x15 {
        TypeReference::MethodReceiver
    } else if target == 0x40 {
        TypeReference::LocalVariable
    } else if target == 0x41 {
        TypeReference::ResourceVariable
    } else if target == 0x42 {
        TypeReference::ExceptionParameter
    } else if target == 0x43 {
        TypeReference::Instanceof
    } else if target == 0x44 {
        TypeReference::New
    } else if target == 0x45 {
        TypeReference::ConstructorReference
    } else {
        TypeReference::MethodReference
    }
}

/// The target of the type annotation that starts at `offset`: the reference,
/// the place in code that it names, and the offset behind the target. The
/// first byte gives the kind, and the kind says what follows:
/// a parameter index (0x00, 0x01, 0x16); the index of a supertype, where
/// 0xFFFF is the superclass (0x10); a parameter and a bound index (0x11,
/// 0x12); nothing (0x13 to 0x15); the index of an exception (0x17); a table
/// of ranges (0x40, 0x41); the index of a try-catch block (0x42); the offset
/// of an instruction (0x43 to 0x46); the offset of an instruction and the
/// index of a type argument (0x47 to 0x4B).
pub open spec fn spec_target(data: Seq<u8>, offset: int) -> ClassFileResult<
    (TypeReference, TypeAnnotationCodeLocationView, int),
> {
    match spec_read_u8(data, offset) {
        Err(e) => Err(e),
        Ok(target) => if target == 0x00 || target == 0x01 || target == 0x16 {
            match spec_read_u8(data, offset + 1) {
                Err(e) => Err(e),
                Ok(operand) => Ok(
                    (spec_reference_u8(target, operand), TypeAnnotationCodeLocationView::NotInCode, offset + 2),
                ),
            }
        } else if target == 0x10 {
            match spec_read_u16(data, offset + 1) {
                Err(e) => Err(e),
                Ok(supertype_index) => Ok(
                    (
                        TypeReference::ClassExtends {
                            interface_index: if supertype_index == 0xffff {
                                None
                            } else {
                                Some(supertype_index)
                            },
                        },
                        TypeAnnotationCodeLocationView::NotInCode,
                        offset + 3,
                    ),
                ),
            }
        } else if target == 0x11 || target == 0x12 {
            match spec_read_u8(data, offset + 1) {
                Err(e) => Err(e),
                Ok(param_index) => match spec_read_u8(data, offset + 2) {
                    Err(e) => Err(e),
                    Ok(bound_index) => Ok(
                        (
                            if target == 0x11 {
                                TypeReference::ClassTypeParameterBound { param_index, bound_index }
                            } else {
                                TypeReference::MethodTypeParameterBound { param_index, bound_index }
                            },
                            TypeAnnotationCodeLocationView::NotInCode,
                            offset + 3,
                        ),
                    ),
                },
            }
        } else if 0x13 <= target <= 0x15 {
            Ok((spec_reference_plain(target), TypeAnnotationCodeLocationView::NotInCode, offset + 1))
        } else if target == 0x17 {
            match spec_read_u16(data, offset + 1) {
                Err(e) => Err(e),
                Ok(exception_index) => Ok(
                    (
                        TypeReference::Throws { exception_index },
                        TypeAnnotationCodeLocationView::NotInCode,
                        offset + 3,
                    ),
                ),
            }
        } else if target == 0x40 || target == 0x41 {
            match spec_local_variable(data, offset + 1) {
                Err(e) => Err(e),
                Ok(table) => Ok(
                    (
                        spec_reference_plain(target),
                        TypeAnnotationCodeLocationView::LocalVariable(table.0),
                        table.1,
                    ),
                ),
            }
        } else if target == 0x42 {
            match spec_read_u16(data, offset + 1) {
                Err(e) => Err(e),
                Ok(index) => Ok(
                    (
                        spec_reference_plain(target),
                        TypeAnnotationCodeLocationView::TryCatchBlock(index),
                        offset + 3,
                    ),
                ),
            }
        } else if 0x43 <= target <= 0x46 {
            match spec_read_u16(data, offset + 1) {
                Err(e) => Err(e),
                Ok(pc) => Ok(
                    (spec_reference_plain(target), TypeAnnotationCodeLocationView::Insn(pc), offset + 3),
                ),
            }
        } else if 0x47 <= target <= 0x4B {
            match spec_read_u16(data, offset + 1) {
                Err(e) => Err(e),
                Ok(pc) => match spec_read_u8(data, offset + 3) {
                    Err(e) => Err(e),
                    Ok(operand) => Ok(
                        (
                            spec_reference_u8(target, operand),
                            TypeAnnotationCodeLocationView::Insn(pc),
                            offset + 4,
                        ),
                    ),
                },
            }
        } else {
            Err(ClassFileError::BadTypeAnnotationTarget(target))
        },
    }
}

/// The type annotation that starts at `offset`, with the place in code that
/// it names, and the offset behind it: the target, then the number of steps
/// of the type path and two bytes for each step, then the slot of the
/// descriptor and the elements.
pub open spec fn spec_type_annotation(pool: Pool, offset: int) -> ClassFileResult<
    ((TypeAnnotationNodeView, TypeAnnotationCodeLocationView), int),
> {
    match spec_target(pool.data, offset) {
        Err(e) => Err(e),
        Ok(target) => match spec_read_u8(pool.data, target.2) {
            Err(e) => Err(e),
            Ok(steps) => match read_at(
                pool.data,
                target.2 + 1,
                2 * steps,
                pool.data.subrange(target.2 + 1, target.2 + 1 + 2 * steps),
            ) {
                Err(e) => Err(e),
                Ok(path) => match spec_utf8_at(pool, target.2 + 1 + 2 * steps) {
                    Err(e) => Err(e),
                    Ok(desc) => match spec_annotation_values(pool, target.2 + 3 + 2 * steps, 0) {
                        Err(e) => Err(e),
                        Ok(values) => Ok(
                            (
                                (
                                    TypeAnnotationNodeView {
                                        type_ref: target.0,
                                        type_path: spec_steps(path),
                                        desc,
                                        values: values.0,
                                    },
                                    target.1,
                                ),
                                values.1,
                            ),
                        ),
                    },
                },
            },
        },
    }
}

/// The reference of the kind `target` whose one operand byte is `operand`.
fn reference_u8(target: u8, operand: u8) -> (r: TypeReference)
    ensures
        r == spec_reference_u8(target, operand),
{
    match target {
        0x00 => TypeReference::ClassTypeParameter { param_index: operand },
        0x01 => TypeReference::MethodTypeParameter { param_index: operand },
        0x16 => TypeReference::MethodFormalParameter { param_index: operand },
        0x47 => TypeReference::Cast { arg_index: operand },
        0x48 => TypeReference::ConstructorInvocationTypeArgument { arg_index: operand },
        0x49 => TypeReference::MethodInvocationTypeArgument { arg_index: operand },
        0x4A => TypeReference::ConstructorReferenceTypeArgument { arg_index: operand },
        _ => TypeReference::MethodReferenceTypeArgument { arg_index: operand },
    }
}

/// The reference of the kind `target` that has no operand of its own.
fn reference_plain(target: u8) -> (r: TypeReference)
    ensures
        r == spec_reference_plain(target),
{
    match target {
        0x13 => TypeReference::Field,
        0x14 => TypeReference::MethodReturn,
        0x15 => TypeReference::MethodReceiver,
        0x40 => TypeReference::LocalVariable,
        0x41 => TypeReference::ResourceVariable,
        0x42 => TypeReference::ExceptionParameter,
        0x43 => TypeReference::Instanceof,
        0x44 => TypeReference::New,
        0x45 => TypeReference::ConstructorReference,
        _ => TypeReference::MethodReference,
    }
}

impl TypeAnnotationCodeLocation {
    /// Decodes the table of ranges that starts at `offset`.
    pub fn read_local_variable(pool: &ConstantPool, offset: usize) -> (r: ClassFileResult<
        (Vec<TypeAnnotationLocalVariableRange>, usize),
    >)
        ensures
            r is Ok ==> spec_local_variable(pool@.data, offset as int) == Ok::<
                (Seq<TypeAnnotationLocalVariableRange>, int),
                ClassFileError,
            >((r->Ok_0.0@, r->Ok_0.1 as int)),
            r is Err ==> spec_local_variable(pool@.data, offset as int) == Err::<
                (Seq<TypeAnnotationLocalVariableRange>, int),
                ClassFileError,
            >(r->Err_0),
            r is Ok ==> r->Ok_0.1 <= pool@.data.len() <= usize::MAX,
    {
        let buffer = pool.buffer();
        let table_length: u16 = buffer.read_u16(offset)?;
        let mut table: Vec<TypeAnnotationLocalVariableRange> = Vec::new();
        let mut at: usize = offset + 2;
        let mut i: u16 = 0;
        while i < table_length
            invariant
                i <= table_length,
                buffer@ == pool@.data,
                at <= pool@.data.len() <= usize::MAX,
                spec_local_variable(pool@.data, offset as int) == spec_ranges_from(
                    pool@.data,
                    at as int,
                    table_length - i,
                    table@,
                ),
            decreases table_length - i,
        {
            let start_pc: u16 = buffer.read_u16(at)?;
            let length: u16 = buffer.read_u16(at + 2)?;
            let index: u16 = buffer.read_u16(at + 4)?;
            table.push(TypeAnnotationLocalVariableRange { start_pc, length, index });
            at = at + 6;
            i = i + 1;
        }
        Ok((table, at))
    }
}

/// Decodes the target of the type annotation that starts at `offset`.
fn read_target(pool: &ConstantPool, offset: usize) -> (r: ClassFileResult<
    (TypeReference, TypeAnnotationCodeLocation, usize),
>)
    ensures
        r is Ok ==> spec_target(pool@.data, offset as int) == Ok::<
            (TypeReference, TypeAnnotationCodeLocationView, int),
            ClassFileError,
        >((r->Ok_0.0, r->Ok_0.1.deep_view(), r->Ok_0.2 as int)),
        r is Err ==> spec_target(pool@.data, offset as int) == Err::<
            (TypeReference, TypeAnnotationCodeLocationView, int),
            ClassFileError,
        >(r->Err_0),
        r is Ok ==> r->Ok_0.2 <= pool@.data.len() <= usize::MAX,
{
    let buffer = pool.buffer();
    let target: u8 = buffer.read_u8(offset)?;
    if target == 0x00 || target == 0x01 || target == 0x16 {
        let operand: u8 = buffer.read_u8(offset + 1)?;
        Ok((reference_u8(target, operand), TypeAnnotationCodeLocation::NotInCode, offset + 2))
    } else if target == 0x10 {
        let supertype_index: u16 = buffer.read_u16(offset + 1)?;
        let interface_index: Option<u16> = if supertype_index == 0xffff {
            None
        } else {
            Some(supertype_index)
        };
        Ok((TypeReference::ClassExtends { interface_index }, TypeAnnotationCodeLocation::NotInCode, offset + 3))
    } else if target == 0x11 || target == 0x12 {
        let param_index: u8 = buffer.read_u8(offset + 1)?;
        let bound_index: u8 = buffer.read_u8(offset + 2)?;
        let reference = if target == 0x11 {
            TypeReference::ClassTypeParameterBound { param_index, bound_index }
        } else {
            TypeReference::MethodTypeParameterBound { param_index, bound_index }
        };
        Ok((reference, TypeAnnotationCodeLocation::NotInCode, offset + 3))
    } else if 0x13 <= target && target <= 0x15 {
        Ok((reference_plain(target), TypeAnnotationCodeLocation::NotInCode, offset + 1))
    } else if target == 0x17 {
        let exception_index: u16 = buffer.read_u16(offset + 1)?;
        Ok((TypeReference::Throws { exception_index }, TypeAnnotationCodeLocation::NotInCode, offset + 3))
    } else if target == 0x40 || target == 0x41 {
        let (table, end) = TypeAnnotationCodeLocation::read_local_variable(pool, offset + 1)?;
        Ok((reference_plain(target), TypeAnnotationCodeLocation::LocalVariable(table), end))
    } else if target == 0x42 {
        let index: u16 = buffer.read_u16(offset + 1)?;
        Ok((reference_plain(target), TypeAnnotationCodeLocation::TryCatchBlock(index), offset + 3))
    } else if 0x43 <= target && target <= 0x46 {
        let pc: u16 = buffer.read_u16(offset + 1)?;
        Ok((reference_plain(target), TypeAnnotationCodeLocation::Insn(pc), offset + 3))
    } else if 0x47 <= target && target <= 0x4B {
        let pc: u16 = buffer.read_u16(offset + 1)?;
        let operand: u8 = buffer.read_u8(offset + 3)?;
        Ok((reference_u8(target, operand), TypeAnnotationCodeLocation::Insn(pc), offset + 4))
    } else {
        Err(ClassFileError::BadTypeAnnotationTarget(target))
    }
}

/// Decodes the type annotation that starts at `offset`.
pub fn read_type_annotation(pool: &ConstantPool, offset: usize) -> (r: ClassFileResult<
    ((TypeAnnotationNode, TypeAnnotationCodeLocation), usize),
>)
    ensures
        parsed(r) == spec_type_annotation(pool@, offset as int),
        r is Ok ==> r->Ok_0.1 <= pool@.data.len() <= usize::MAX,
{
    let buffer = pool.buffer();
    let (type_ref, code_location, at) = read_target(pool, offset)?;
    let type_path_length: usize = buffer.read_u8(at)? as usize;
    let path_bytes = buffer.read_bytes(at + 1, type_path_length * 2)?;
    let type_path = TypePath::from_bytes(path_bytes);
    let desc_at: usize = at + 1 + type_path_length * 2;
    let desc = pool.utf8_at(desc_at)?;
    let (values, end) = read_annotation_values(pool, desc_at + 2, 0)?;
    Ok(((TypeAnnotationNode { type_ref, type_path, desc, values }, code_location), end))
}

} // verus!
