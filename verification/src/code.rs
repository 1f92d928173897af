//! The code of a method: its instructions, and what the attributes of the
//! code attach to them.

use crate::annotations::{
    read_type_annotation, spec_type_annotation, TypeAnnotationCodeLocation,
    TypeAnnotationCodeLocationView, TypeAnnotationLocalVariableRange,
};
use crate::attribute::KnownAttribute;
use crate::bootstrap::{BootstrapMethod, BootstrapMethodView};
use crate::buffer::{be_u16, be_u32, signed, spec_advance, spec_read_u16, spec_read_u32, spec_read_u8, to_i16, to_i32, to_i8};
use crate::class_reader::ClassReader;
use crate::constant_pool::{
    spec_get, spec_get_dynamic_of, spec_get_member, spec_get_name, spec_get_type,
    spec_optional_name_at, spec_utf8_at, ConstantPool, ConstantPoolEntry, ConstantPoolEntryView,
    ConstantPoolTag, Pool,
};
use crate::error::{ClassFileError, ClassFileResult};
use crate::events::{
    AnnotationEvent, AnnotationEventView, MethodEvent, MethodEventView,
    MethodLocalVariableAnnotationEvent, MethodLocalVariableAnnotationEventView,
    MethodLocalVariableEvent, MethodLocalVariableEventView, MethodTryCatchBlockAnnotationEvent,
    MethodTryCatchBlockAnnotationEventView, MethodTryCatchBlockEvent, MethodTryCatchBlockEventView,
};
use crate::frame::{Frame, FrameValue, FrameValueView, FrameView};
use crate::handle::{
    arguments_view, clone_arguments, lemma_constant_dynamic_view, ConstantDynamic,
    ConstantDynamicView,
};
use crate::label::{
    spec_creator_after, spec_label_after, spec_succ, Label, LabelCreator, LabelCreatorView,
};
use crate::opcodes::{
    spec_new_array_type, spec_opcode, LdcConstant, LdcConstantView, NewArrayType, Opcode,
};
use crate::scan::{read_attribute_header, spec_attribute_header, AttributeHeader};
use crate::method_reader::{spec_bootstrap, BootstrapMethods};
use crate::tree::annotation::{TypeAnnotationNode, TypeAnnotationNodeView};
use std::sync::Arc;
use vstd::prelude::*;

verus! {

/// What the labels of a method are, mathematically: for each offset of the
/// code, and for the offset behind it, the label of that place if it has one;
/// the index of the method among the methods of its class; the number of
/// the label that comes next; and the creator of the labels, as long as the
/// table holds it.
pub struct Labels {
    pub labels: Seq<Option<Label>>,
    pub method: u16,
    pub next: u32,
    pub creator: Option<LabelCreatorView>,
}

/// The number of places that have a label.
pub open spec fn assigned(labels: Seq<Option<Label>>) -> nat
    decreases labels.len(),
{
    if labels.len() == 0 {
        0
    } else {
        assigned(labels.drop_last()) + (if labels.last() is Some {
            1nat
        } else {
            0nat
        })
    }
}

/// Whether the labels are in order: the places with a label are as many as
/// labels were made, each label is one of the method and was made before the
/// next one to come, and no two places have the same label.
pub open spec fn labels_sound(at: Labels) -> bool {
    &&& at.labels.len() <= 0x1_0000
    &&& assigned(at.labels) == at.next
    &&& forall|i: int|
        0 <= i < at.labels.len() && (#[trigger] at.labels[i]) is Some ==> at.labels[i]->Some_0.method
            == at.method && at.labels[i]->Some_0.number < at.next
    &&& forall|i: int, j: int|
        0 <= i < j < at.labels.len() && (#[trigger] at.labels[i]) is Some && (#[trigger] at.labels[j]) is Some
            ==> at.labels[i] != at.labels[j]
}

/// Whether the labels are in order and the table holds their creator, which
/// stands at the label that comes next: such a table can give a place a new
/// label.
pub open spec fn labels_wf(at: Labels) -> bool {
    &&& labels_sound(at)
    &&& at.creator == Some(LabelCreatorView { method: at.method, next: at.next })
}

/// The labels of two methods of one class have nothing in common: no label
/// of a place of the one is the label of a place of the other.
pub proof fn law_methods_share_no_label(a: Labels, b: Labels, i: int, j: int)
    requires
        labels_sound(a),
        labels_sound(b),
        a.method != b.method,
        0 <= i < a.labels.len(),
        0 <= j < b.labels.len(),
        a.labels[i] is Some,
        b.labels[j] is Some,
    ensures
        a.labels[i] != b.labels[j],
{
}

/// The creator of the labels of a method goes on behind the labels of the
/// code: the labels that it makes once it has left the table are labels of
/// the same method, and, as long as its counter has not gone round, none of
/// them is the label of a place.
pub proof fn law_creator_goes_on_behind_the_code(at: Labels, n: nat, i: int)
    requires
        labels_wf(at),
        at.next + n < 0x1_0000_0000,
        0 <= i < at.labels.len(),
        at.labels[i] is Some,
    ensures
        spec_label_after(at.creator->Some_0, n).method == at.method,
        spec_label_after(at.creator->Some_0, n) != at.labels[i]->Some_0,
{
}

/// Whether `after` has every label of `before` at its place, and is the
/// table of the same method.
pub open spec fn extends(before: Labels, after: Labels) -> bool {
    &&& before.labels.len() == after.labels.len()
    &&& before.method == after.method
    &&& forall|i: int|
        0 <= i < before.labels.len() && (#[trigger] before.labels[i]) is Some ==> after.labels[i]
            == before.labels[i]
}

/// The label of the place `target`, and the labels afterwards: the label
/// that the place has, or a new one that the place gets, which is the one
/// that the creator of the table makes next. A place outside the code has no
/// label.
pub open spec fn spec_label(at: Labels, target: usize) -> ClassFileResult<(Label, Labels)> {
    if target >= at.labels.len() {
        Err(ClassFileError::CodeOffsetOutOfBounds { index: target, len: at.labels.len() as usize })
    } else {
        match at.labels[target as int] {
            Some(label) => Ok((label, at)),
            None => Ok(
                (
                    Label { method: at.method, number: at.next },
                    Labels {
                        labels: at.labels.update(
                            target as int,
                            Some(Label { method: at.method, number: at.next }),
                        ),
                        method: at.method,
                        next: spec_succ(at.next),
                        creator: match at.creator {
                            Some(creator) => Some(spec_creator_after(creator, 1)),
                            None => None,
                        },
                    },
                ),
            ),
        }
    }
}

/// Giving a place its label changes the count of labelled places by what
/// the place held and holds.
pub proof fn lemma_assigned_update(labels: Seq<Option<Label>>, i: int, label: Option<Label>)
    requires
        0 <= i < labels.len(),
    ensures
        assigned(labels.update(i, label)) + (if labels[i] is Some {
            1nat
        } else {
            0nat
        }) == assigned(labels) + (if label is Some {
            1nat
        } else {
            0nat
        }),
    decreases labels.len(),
{
    let changed = labels.update(i, label);
    if i == labels.len() - 1 {
        assert(changed.drop_last() =~= labels.drop_last());
    } else {
        assert(changed.drop_last() =~= labels.drop_last().update(i, label));
        lemma_assigned_update(labels.drop_last(), i, label);
    }
}

/// No more places have a label than there are places; and where all have
/// one, none is without.
pub proof fn lemma_assigned_bound(labels: Seq<Option<Label>>)
    ensures
        assigned(labels) <= labels.len(),
        assigned(labels) == labels.len() ==> forall|i: int| 0 <= i < labels.len() ==> (#[trigger] labels[i]) is Some,
    decreases labels.len(),
{
    if labels.len() > 0 {
        lemma_assigned_bound(labels.drop_last());
        if assigned(labels) == labels.len() {
            assert forall|i: int| 0 <= i < labels.len() implies (#[trigger] labels[i]) is Some by {
                if i < labels.len() - 1 {
                    assert(labels.drop_last()[i] == labels[i]);
                }
            }
        }
    }
}

/// A sequence of places without a label has no labelled place.
pub proof fn lemma_assigned_none(labels: Seq<Option<Label>>)
    requires
        forall|i: int| 0 <= i < labels.len() ==> (#[trigger] labels[i]) is None,
    ensures
        assigned(labels) == 0,
    decreases labels.len(),
{
    if labels.len() > 0 {
        assert forall|i: int| 0 <= i < labels.drop_last().len() implies (#[trigger] labels.drop_last()[i]) is None by {
            assert(labels.drop_last()[i] == labels[i]);
        }
        lemma_assigned_none(labels.drop_last());
    }
}

/// The labels of the code of one method. The table holds the creator of the
/// labels while the code is decoded, and hands it on afterwards.
#[derive(Debug)]
pub struct LabelTable {
    labels: Vec<Option<Label>>,
    method: u16,
    next: u32,
    creator: Option<LabelCreator>,
}

impl View for LabelTable {
    type V = Labels;

    closed spec fn view(&self) -> Labels {
        Labels {
            labels: self.labels@,
            method: self.method,
            next: self.next,
            creator: match self.creator {
                Some(creator) => Some(creator@),
                None => None,
            },
        }
    }
}

impl DeepView for LabelTable {
    type V = Labels;

    open spec fn deep_view(&self) -> Labels {
        self@
    }
}

impl LabelTable {
    /// The table of a code of `places` places, none of which has a label,
    /// for the method with index `method` among the methods of its class.
    pub(crate) fn new(places: usize, method: u16) -> (r: Self)
        requires
            places <= 0x1_0000,
        ensures
            r@.labels.len() == places,
            r@.method == method,
            r@.next == 0,
            forall|i: int| 0 <= i < places ==> (#[trigger] r@.labels[i]) is None,
            labels_wf(r@),
    {
        let mut labels: Vec<Option<Label>> = Vec::new();
        let mut i: usize = 0;
        while i < places
            invariant
                i <= places,
                labels@.len() == i,
                forall|k: int| 0 <= k < i ==> (#[trigger] labels@[k]) is None,
            decreases places - i,
        {
            labels.push(None);
            i = i + 1;
        }
        proof {
            lemma_assigned_none(labels@);
        }
        LabelTable { labels, method, next: 0, creator: Some(LabelCreator::for_method(method)) }
    }

    /// The number of places.
    pub fn len(&self) -> (n: usize)
        ensures
            n == self@.labels.len(),
    {
        self.labels.len()
    }

    /// The label of the place `index`, if the place has one.
    pub fn get(&self, index: usize) -> (r: Option<Label>)
        ensures
            r == (if index < self@.labels.len() {
                self@.labels[index as int]
            } else {
                None
            }),
    {
        if index < self.labels.len() {
            self.labels[index]
        } else {
            None
        }
    }

    /// The index of the method among the methods of its class.
    pub fn method(&self) -> (r: u16)
        ensures
            r == self@.method,
    {
        self.method
    }

    /// Hands on the creator of the labels, which goes on behind the labels
    /// of the code. The table keeps its labels and can give no place a new
    /// one from then on; there is nothing to hand on a second time.
    pub fn take_creator(&mut self) -> (r: Option<LabelCreator>)
        ensures
            final(self)@ == (Labels { creator: None, ..old(self)@ }),
            match old(self)@.creator {
                Some(creator) => r is Some && r->Some_0@ == creator,
                None => r is None,
            },
    {
        self.creator.take()
    }

    /// The label of the place `target`: the one that it has, or a new one.
    pub(crate) fn get_or_create_label(&mut self, target: usize) -> (r: ClassFileResult<Label>)
        requires
            labels_wf(old(self)@),
        ensures
            labels_wf(final(self)@),
            extends(old(self)@, final(self)@),
            match spec_label(old(self)@, target) {
                Ok(found) => r == Ok::<Label, ClassFileError>(found.0) && final(self)@ == found.1,
                Err(e) => r == Err::<Label, ClassFileError>(e) && final(self)@ == old(self)@,
            },
            r is Ok ==> target < final(self)@.labels.len() && final(self)@.labels[target as int] == Some(
                r->Ok_0,
            ),
    {
        let len: usize = self.labels.len();
        if target >= len {
            return Err(ClassFileError::CodeOffsetOutOfBounds { index: target, len });
        }
        match self.labels[target] {
            Some(label) => Ok(label),
            None => {
                proof {
                    lemma_assigned_bound(self.labels@);
                    lemma_assigned_update(
                        self.labels@,
                        target as int,
                        Some(Label { method: self.method, number: self.next }),
                    );
                }
                let ghost before = self@;
                let mut creator = self.creator.take().unwrap();
                let label = creator.create_label();
                self.creator = Some(creator);
                self.next = if self.next == u32::MAX {
                    0
                } else {
                    self.next + 1
                };
                self.labels[target] = Some(label);
                proof {
                    let after = self@;
                    assert forall|i: int, j: int|
                        0 <= i < j < after.labels.len() && (#[trigger] after.labels[i]) is Some && (
                        #[trigger] after.labels[j]) is Some implies after.labels[i] != after.labels[j] by {
                        if i != target && j != target {
                            assert(before.labels[i] is Some);
                            assert(before.labels[j] is Some);
                        } else if i == target {
                            assert(before.labels[j] is Some);
                        } else {
                            assert(before.labels[i] is Some);
                        }
                    }
                    assert forall|i: int|
                        0 <= i < after.labels.len() && (#[trigger] after.labels[i]) is Some implies
                        after.labels[i]->Some_0.method == after.method && after.labels[i]->Some_0.number
                        < after.next by {
                        if i != target {
                            assert(before.labels[i] is Some);
                        }
                    }
                }
                Ok(label)
            },
        }
    }
}

/// The error of reading the code behind its end: where `count` bytes are
/// read one after the other from `first`, the first byte that is not there
/// is named.
pub open spec fn code_failure(code: Seq<u8>, first: int) -> ClassFileError {
    ClassFileError::CodeOffsetOutOfBounds {
        index: (if first >= code.len() {
            first
        } else {
            code.len() as int
        }) as usize,
        len: code.len() as usize,
    }
}

/// The outcome of reading a value of `count` bytes of code from `first`.
pub open spec fn code_read<T>(code: Seq<u8>, first: int, count: int, value: T) -> ClassFileResult<T> {
    if first + count <= code.len() {
        Ok(value)
    } else {
        Err(code_failure(code, first))
    }
}

pub open spec fn code_u8(code: Seq<u8>, first: int) -> ClassFileResult<u8> {
    code_read(code, first, 1, code[first])
}

pub open spec fn code_u16(code: Seq<u8>, first: int) -> ClassFileResult<u16> {
    code_read(code, first, 2, be_u16(code, first) as u16)
}

pub open spec fn code_i16(code: Seq<u8>, first: int) -> ClassFileResult<i16> {
    code_read(code, first, 2, signed(be_u16(code, first), 0x8000) as i16)
}

pub open spec fn code_u32(code: Seq<u8>, first: int) -> ClassFileResult<u32> {
    code_read(code, first, 4, be_u32(code, first) as u32)
}

pub open spec fn code_i32(code: Seq<u8>, first: int) -> ClassFileResult<i32> {
    code_read(code, first, 4, signed(be_u32(code, first), 0x8000_0000) as i32)
}

/// The byte of code at `index`.
pub fn get_code(code: &[u8], index: usize) -> (r: ClassFileResult<u8>)
    ensures
        r == code_u8(code@, index as int),
{
    if index < code.len() {
        Ok(code[index])
    } else {
        Err(ClassFileError::CodeOffsetOutOfBounds { index, len: code.len() })
    }
}

/// The two bytes of code from `first`, as one number.
pub(crate) fn get_code_u16(code: &[u8], first: usize) -> (r: ClassFileResult<u16>)
    requires
        first <= 0x2_0000,
    ensures
        r == code_u16(code@, first as int),
{
    let hi: u16 = get_code(code, first)? as u16;
    let lo: u16 = get_code(code, first + 1)? as u16;
    Ok(hi * 0x100 + lo)
}

/// The two bytes of code from `first`, as one signed number.
pub(crate) fn get_code_i16(code: &[u8], first: usize) -> (r: ClassFileResult<i16>)
    requires
        first <= 0x2_0000,
    ensures
        r == code_i16(code@, first as int),
{
    Ok(to_i16(get_code_u16(code, first)?))
}

/// The four bytes of code from `first`, as one number.
pub(crate) fn get_code_u32(code: &[u8], first: usize) -> (r: ClassFileResult<u32>)
    requires
        first <= 0x2_0000,
    ensures
        r == code_u32(code@, first as int),
{
    let b0: u32 = get_code(code, first)? as u32;
    let b1: u32 = get_code(code, first + 1)? as u32;
    let b2: u32 = get_code(code, first + 2)? as u32;
    let b3: u32 = get_code(code, first + 3)? as u32;
    Ok((b0 * 0x100 + b1) * 0x1_0000 + (b2 * 0x100 + b3))
}

/// The four bytes of code from `first`, as one signed number.
pub(crate) fn get_code_i32(code: &[u8], first: usize) -> (r: ClassFileResult<i32>)
    requires
        first <= 0x2_0000,
    ensures
        r == code_i32(code@, first as int),
{
    Ok(to_i32(get_code_u32(code, first)?))
}

/// The place that a branch of `branch` bytes from `base` leads to. A branch
/// to before the code comes out as a place far behind it, as adding in the
/// machine's word does.
pub open spec fn spec_target(base: int, branch: int) -> usize {
    if base + branch >= 0 {
        (base + branch) as usize
    } else {
        (usize::MAX + 1 + base + branch) as usize
    }
}

/// The place that a branch of `branch` bytes from `base` leads to.
pub(crate) fn branch_target(base: usize, branch: i32) -> (r: usize)
    requires
        base <= 0xffff,
    ensures
        r == spec_target(base as int, branch as int),
{
    if branch >= 0 {
        base + branch as usize
    } else {
        let back: u32 = (-(branch as i64)) as u32;
        if back as usize <= base {
            base - back as usize
        } else {
            usize::MAX - (back as usize - base - 1)
        }
    }
}

/// What follows the opcode byte of an instruction.
#[derive(Debug, Copy, Clone, PartialEq, Eq, Structural)]
pub enum Shape {
    /// No operand.
    Plain,
    /// A signed byte.
    BIPush,
    /// A signed number of sixteen bits.
    SIPush,
    /// The slot of a constant, in one byte.
    Ldc,
    /// The index of a local variable, in one byte.
    Var,
    /// The index of a local variable and a signed byte, each in one byte.
    IInc,
    /// A branch of sixteen bits, relative to the instruction.
    Jump,
    /// Padding, then a default branch, two bounds and a branch for each
    /// value between them.
    TableSwitch,
    /// Padding, then a default branch, a count and that many pairs of a
    /// value and a branch.
    LookupSwitch,
    /// The slot of a field reference.
    Field,
    /// The slot of a method reference; `invokeinterface` has two more
    /// bytes.
    Method,
    /// The slot of a call site and two bytes of zero.
    InvokeDynamic,
    /// The slot of a class.
    Type,
    /// The code of an element type.
    NewArray,
    /// The slot of a class and a number of dimensions.
    MultiANewArray,
}

/// What follows the opcode byte of `opcode`.
pub open spec fn spec_shape(opcode: Opcode) -> Shape {
    match opcode {
        Opcode::BIPush => Shape::BIPush,
        Opcode::SIPush => Shape::SIPush,
        Opcode::Ldc => Shape::Ldc,
        Opcode::ILoad
        | Opcode::LLoad
        | Opcode::FLoad
        | Opcode::DLoad
        | Opcode::ALoad
        | Opcode::IStore
        | Opcode::LStore
        | Opcode::FStore
        | Opcode::DStore
        | Opcode::AStore
        | Opcode::Ret => Shape::Var,
        Opcode::IInc => Shape::IInc,
        Opcode::IfEq
        | Opcode::IfNe
        | Opcode::IfLt
        | Opcode::IfGe
        | Opcode::IfGt
        | Opcode::IfLe
        | Opcode::IfICmpEq
        | Opcode::IfICmpNe
        | Opcode::IfICmpLt
        | Opcode::IfICmpGe
        | Opcode::IfICmpGt
        | Opcode::IfICmpLe
        | Opcode::IfACmpEq
        | Opcode::IfACmpNe
        | Opcode::Goto
        | Opcode::Jsr
        | Opcode::IfNull
        | Opcode::IfNonNull => Shape::Jump,
        Opcode::TableSwitch => Shape::TableSwitch,
        Opcode::LookupSwitch => Shape::LookupSwitch,
        Opcode::GetStatic
        | Opcode::PutStatic
        | Opcode::GetField
        | Opcode::PutField => Shape::Field,
        Opcode::InvokeVirtual
        | Opcode::InvokeSpecial
        | Opcode::InvokeStatic
        | Opcode::InvokeInterface => Shape::Method,
        Opcode::InvokeDynamic => Shape::InvokeDynamic,
        Opcode::New
        | Opcode::ANewArray
        | Opcode::CheckCast
        | Opcode::Instanceof => Shape::Type,
        Opcode::NewArray => Shape::NewArray,
        Opcode::MultiANewArray => Shape::MultiANewArray,
        _ => Shape::Plain,
    }
}

/// What follows the opcode byte of `opcode`.
pub fn shape(opcode: Opcode) -> (r: Shape)
    ensures
        r == spec_shape(opcode),
{
    match opcode {
        Opcode::BIPush => Shape::BIPush,
        Opcode::SIPush => Shape::SIPush,
        Opcode::Ldc => Shape::Ldc,
        Opcode::ILoad
        | Opcode::LLoad
        | Opcode::FLoad
        | Opcode::DLoad
        | Opcode::ALoad
        | Opcode::IStore
        | Opcode::LStore
        | Opcode::FStore
        | Opcode::DStore
        | Opcode::AStore
        | Opcode::Ret => Shape::Var,
        Opcode::IInc => Shape::IInc,
        Opcode::IfEq
        | Opcode::IfNe
        | Opcode::IfLt
        | Opcode::IfGe
        | Opcode::IfGt
        | Opcode::IfLe
        | Opcode::IfICmpEq
        | Opcode::IfICmpNe
        | Opcode::IfICmpLt
        | Opcode::IfICmpGe
        | Opcode::IfICmpGt
        | Opcode::IfICmpLe
        | Opcode::IfACmpEq
        | Opcode::IfACmpNe
        | Opcode::Goto
        | Opcode::Jsr
        | Opcode::IfNull
        | Opcode::IfNonNull => Shape::Jump,
        Opcode::TableSwitch => Shape::TableSwitch,
        Opcode::LookupSwitch => Shape::LookupSwitch,
        Opcode::GetStatic
        | Opcode::PutStatic
        | Opcode::GetField
        | Opcode::PutField => Shape::Field,
        Opcode::InvokeVirtual
        | Opcode::InvokeSpecial
        | Opcode::InvokeStatic
        | Opcode::InvokeInterface => Shape::Method,
        Opcode::InvokeDynamic => Shape::InvokeDynamic,
        Opcode::New
        | Opcode::ANewArray
        | Opcode::CheckCast
        | Opcode::Instanceof => Shape::Type,
        Opcode::NewArray => Shape::NewArray,
        Opcode::MultiANewArray => Shape::MultiANewArray,
        _ => Shape::Plain,
    }
}

/// The first multiple of four that is not below `offset`.
pub open spec fn spec_aligned(offset: int) -> int {
    (offset + 3) / 4 * 4
}

/// The width of an instruction whose opcode byte is `op` and which is none
/// of `tableswitch`, `lookupswitch` and `wide`.
pub open spec fn spec_fixed_width(op: u8) -> int {
    if op == 16 || op == 18 || 21 <= op <= 25 || 54 <= op <= 58 || op == 169 || op == 188 {
        2
    } else if op == 17 || op == 19 || op == 20 || op == 132 || 153 <= op <= 168 || 178 <= op <= 184 || op
        == 187 || op == 189 || op == 192 || op == 193 || op == 198 || op == 199 {
        3
    } else if op == 197 {
        4
    } else if op == 185 || op == 186 || op == 200 || op == 201 {
        5
    } else {
        1
    }
}

/// The encoded width of the instruction at offset `i`: the number of bytes
/// from its opcode byte to the opcode byte of the next instruction.
pub open spec fn spec_width(code: Seq<u8>, i: int) -> int {
    let op = code[i];
    let base = spec_aligned(i + 1);
    if op == 170 {
        let low = signed(be_u32(code, base + 4), 0x8000_0000);
        let high = signed(be_u32(code, base + 8), 0x8000_0000);
        if low <= high {
            base - i + 16 + 4 * (high - low)
        } else {
            base - i + 16
        }
    } else if op == 171 {
        base - i + 8 + 8 * be_u32(code, base + 4)
    } else if op == 196 {
        if code[i + 1] == 132 {
            6
        } else {
            4
        }
    } else {
        spec_fixed_width(op)
    }
}

/// Whether an instruction starts at offset `j`, where one starts at `from`:
/// each instruction starts where the one before it ends.
pub open spec fn spec_reaches(code: Seq<u8>, from: int, j: int) -> bool
    decreases j - from,
{
    if from == j {
        true
    } else if from > j || spec_width(code, from) <= 0 || from + spec_width(code, from) > j {
        false
    } else {
        spec_reaches(code, from + spec_width(code, from), j)
    }
}

/// Whether an instruction starts at offset `j` of `code`. The first
/// instruction starts at offset zero.
pub open spec fn spec_is_start(code: Seq<u8>, j: int) -> bool {
    spec_reaches(code, 0, j)
}

/// Where an instruction starts at `mid`, the instructions behind it start
/// where they start counted from `mid`.
pub proof fn lemma_reaches_from(code: Seq<u8>, from: int, mid: int, j: int)
    requires
        from <= mid <= j,
        spec_reaches(code, from, mid),
    ensures
        spec_reaches(code, from, j) == spec_reaches(code, mid, j),
    decreases mid - from,
{
    if from != mid {
        lemma_reaches_from(code, from + spec_width(code, from), mid, j);
    }
}

/// Whether an event is an instruction.
pub open spec fn spec_is_insn<'reader, 'class>(event: MethodEventView<'reader, 'class>) -> bool {
    event is Insn || event is BIPushInsn || event is SIPushInsn || event is NewArrayInsn || event is VarInsn
        || event is TypeInsn || event is FieldInsn || event is MethodInsn || event is InvokeDynamicInsn
        || event is JumpInsn || event is LdcInsn || event is IIncInsn || event is TableSwitchInsn || event
        is LookupSwitchInsn || event is MultiANewArrayInsn
}

/// Whether every entry of a table of instructions is an instruction.
pub open spec fn spec_all_insns<'reader, 'class>(insns: Seq<Option<MethodEventView<'reader, 'class>>>) -> bool {
    forall|j: int| 0 <= j < insns.len() && (#[trigger] insns[j]) is Some ==> spec_is_insn(insns[j]->Some_0)
}

/// Whether an instruction names a label: the jumps and the two switches do.
pub open spec fn spec_names_label<'reader, 'class>(event: MethodEventView<'reader, 'class>) -> bool {
    event is JumpInsn || event is TableSwitchInsn || event is LookupSwitchInsn
}

/// The label of the place `target`, if the place is there and has one.
pub open spec fn spec_label_at(labels: Labels, target: usize) -> Option<Label> {
    if target < labels.labels.len() {
        labels.labels[target as int]
    } else {
        None
    }
}

/// The place that the jump at offset `i` leads to: `goto_w` and `jsr_w`
/// have a branch of four bytes, the other jumps one of two.
pub open spec fn spec_jump_target(code: Seq<u8>, i: int) -> usize {
    if code[i] == 200 || code[i] == 201 {
        spec_target(i, signed(be_u32(code, i + 1), 0x8000_0000))
    } else {
        spec_target(i, signed(be_u16(code, i + 1), 0x8000))
    }
}

/// The place that the branch of four bytes at `at` leads to from the
/// instruction at `i`.
pub open spec fn spec_branch_at(code: Seq<u8>, i: int, at: int) -> usize {
    spec_target(i, signed(be_u32(code, at), 0x8000_0000))
}

/// Whether the labels that the instruction at offset `i` names are the
/// labels of the places that its branches lead to: a jump names the label of
/// its target, and a switch the label of its default target and the label of
/// the target of each of its branches, in their order.
pub open spec fn spec_targets_labelled<'reader, 'class>(
    code: Seq<u8>,
    i: int,
    event: MethodEventView<'reader, 'class>,
    labels: Labels,
) -> bool {
    let base = spec_aligned(i + 1);
    match event {
        MethodEventView::JumpInsn { opcode, label } => spec_label_at(labels, spec_jump_target(code, i)) == Some(
            label,
        ),
        MethodEventView::TableSwitchInsn { low, high, dflt, labels: targets } => {
            &&& spec_label_at(labels, spec_branch_at(code, i, base)) == Some(dflt)
            &&& forall|k: int|
                0 <= k < targets.len() ==> spec_label_at(labels, spec_branch_at(code, i, base + 12 + 4 * k))
                    == Some(#[trigger] targets[k])
        },
        MethodEventView::LookupSwitchInsn { dflt, values } => {
            &&& spec_label_at(labels, spec_branch_at(code, i, base)) == Some(dflt)
            &&& forall|k: int|
                0 <= k < values.len() ==> spec_label_at(labels, spec_branch_at(code, i, base + 12 + 8 * k))
                    == Some((#[trigger] values[k]).1)
        },
        _ => true,
    }
}

/// Whether every instruction of a table names the labels of its targets.
pub open spec fn spec_all_targets_labelled<'reader, 'class>(
    code: Seq<u8>,
    insns: Seq<Option<MethodEventView<'reader, 'class>>>,
    labels: Labels,
) -> bool {
    forall|j: int|
        0 <= j < insns.len() && (#[trigger] insns[j]) is Some ==> spec_targets_labelled(
            code,
            j,
            insns[j]->Some_0,
            labels,
        )
}

/// An instruction that names the labels of its targets still does so when
/// more places have got labels.
pub proof fn lemma_targets_stay_labelled<'reader, 'class>(
    code: Seq<u8>,
    i: int,
    event: MethodEventView<'reader, 'class>,
    before: Labels,
    after: Labels,
)
    requires
        spec_targets_labelled(code, i, event, before),
        extends(before, after),
    ensures
        spec_targets_labelled(code, i, event, after),
{
    let base = spec_aligned(i + 1);
    match event {
        MethodEventView::JumpInsn { opcode, label } => {
            let target = spec_jump_target(code, i);
            assert(before.labels[target as int] is Some);
        },
        MethodEventView::TableSwitchInsn { low, high, dflt, labels: targets } => {
            assert(before.labels[spec_branch_at(code, i, base) as int] is Some);
            assert forall|k: int| 0 <= k < targets.len() implies spec_label_at(
                after,
                spec_branch_at(code, i, base + 12 + 4 * k),
            ) == Some(#[trigger] targets[k]) by {
                let target = targets[k];
                assert(spec_label_at(before, spec_branch_at(code, i, base + 12 + 4 * k)) == Some(target));
                assert(before.labels[spec_branch_at(code, i, base + 12 + 4 * k) as int] is Some);
            }
        },
        MethodEventView::LookupSwitchInsn { dflt, values } => {
            assert(before.labels[spec_branch_at(code, i, base) as int] is Some);
            assert forall|k: int| 0 <= k < values.len() implies spec_label_at(
                after,
                spec_branch_at(code, i, base + 12 + 8 * k),
            ) == Some((#[trigger] values[k]).1) by {
                let pair = values[k];
                assert(spec_label_at(before, spec_branch_at(code, i, base + 12 + 8 * k)) == Some(pair.1));
                assert(before.labels[spec_branch_at(code, i, base + 12 + 8 * k) as int] is Some);
            }
        },
        _ => {},
    }
}

/// Two jumps of one method name the same label exactly when they lead to
/// the same place.
pub proof fn law_one_label_for_each_target<'reader, 'class>(
    code: Seq<u8>,
    insns: Seq<Option<MethodEventView<'reader, 'class>>>,
    labels: Labels,
    i: int,
    j: int,
)
    requires
        labels_wf(labels),
        spec_all_targets_labelled(code, insns, labels),
        0 <= i < insns.len(),
        0 <= j < insns.len(),
        insns[i] is Some,
        insns[j] is Some,
        insns[i]->Some_0 is JumpInsn,
        insns[j]->Some_0 is JumpInsn,
    ensures
        spec_jump_target(code, i) == spec_jump_target(code, j) <==> insns[i]->Some_0->JumpInsn_label
            == insns[j]->Some_0->JumpInsn_label,
{
    let first = spec_jump_target(code, i);
    let second = spec_jump_target(code, j);
    assert(spec_targets_labelled(code, i, insns[i]->Some_0, labels));
    assert(spec_targets_labelled(code, j, insns[j]->Some_0, labels));
    assert(labels.labels[first as int] is Some);
    assert(labels.labels[second as int] is Some);
}

/// Instructions that name the labels of their targets still do so when more
/// places have got labels.
pub proof fn lemma_all_targets_stay_labelled<'reader, 'class>(
    code: Seq<u8>,
    insns: Seq<Option<MethodEventView<'reader, 'class>>>,
    before: Labels,
    after: Labels,
)
    requires
        spec_all_targets_labelled(code, insns, before),
        extends(before, after),
    ensures
        spec_all_targets_labelled(code, insns, after),
{
    assert forall|j: int| 0 <= j < insns.len() && (#[trigger] insns[j]) is Some implies spec_targets_labelled(
        code,
        j,
        insns[j]->Some_0,
        after,
    ) by {
        lemma_targets_stay_labelled(code, j, insns[j]->Some_0, before, after);
    }
}

/// The constant that `ldc` loads from slot `index`. A dynamic constant comes
/// with its bootstrap method from the table of the class.
#[verifier::opaque]
pub open spec fn spec_ldc_constant(
    pool: Pool,
    table: ClassFileResult<Seq<BootstrapMethodView>>,
    index: u16,
) -> ClassFileResult<LdcConstantView> {
    match spec_get(pool, index) {
        Err(e) => Err(e),
        Ok(entry) => match entry {
            ConstantPoolEntryView::Integer(v) => Ok(LdcConstantView::Integer(v)),
            ConstantPoolEntryView::Float(v) => Ok(LdcConstantView::Float(v)),
            ConstantPoolEntryView::Long(v) => Ok(LdcConstantView::Long(v)),
            ConstantPoolEntryView::Double(v) => Ok(LdcConstantView::Double(v)),
            ConstantPoolEntryView::String(v) => Ok(LdcConstantView::String(v)),
            ConstantPoolEntryView::Class(v) => Ok(LdcConstantView::Class(v)),
            ConstantPoolEntryView::MethodType(v) => Ok(LdcConstantView::MethodType(v)),
            ConstantPoolEntryView::MethodHandle(v) => Ok(LdcConstantView::Handle(v)),
            ConstantPoolEntryView::Dynamic(d) => match spec_bootstrap(table, d.bootstrap_method_attr_index) {
                Err(e) => Err(e),
                Ok(method) => Ok(
                    LdcConstantView::ConstantDynamic(
                        ConstantDynamicView {
                            name: d.name,
                            desc: d.desc,
                            bootstrap_method: method.handle,
                            bootstrap_method_arguments: method.args,
                        },
                    ),
                ),
            },
            _ => match spec_get_type(pool, index) {
                Err(e) => Err(e),
                Ok(tag) => Err(ClassFileError::BadConstantPoolTypeExpectedLdcOperand(tag)),
            },
        },
    }
}

/// The load opcode of the short form with number `k`.
pub open spec fn spec_load_opcode(k: int) -> Opcode {
    if k == 0 {
        Opcode::ILoad
    } else if k == 1 {
        Opcode::LLoad
    } else if k == 2 {
        Opcode::FLoad
    } else if k == 3 {
        Opcode::DLoad
    } else {
        Opcode::ALoad
    }
}

/// The store opcode of the short form with number `k`.
pub open spec fn spec_store_opcode(k: int) -> Opcode {
    if k == 0 {
        Opcode::IStore
    } else if k == 1 {
        Opcode::LStore
    } else if k == 2 {
        Opcode::FStore
    } else if k == 3 {
        Opcode::DStore
    } else {
        Opcode::AStore
    }
}

/// What decoding one instruction gives: its event, and the labels after it.
pub type Decoded<'reader, 'class> = ClassFileResult<(MethodEventView<'reader, 'class>, Labels)>;

/// An event that touches no label.
pub open spec fn plain<'reader, 'class>(
    event: ClassFileResult<MethodEventView<'reader, 'class>>,
    labels: Labels,
) -> Decoded<'reader, 'class> {
    match event {
        Err(e) => Err(e),
        Ok(event) => Ok((event, labels)),
    }
}

/// The jump with `opcode` from the instruction at `i` by `branch` bytes: its
/// target gets a label.
pub open spec fn spec_jump<'reader, 'class>(
    branch: ClassFileResult<int>,
    opcode: Opcode,
    labels: Labels,
    i: int,
) -> Decoded<'reader, 'class> {
    match branch {
        Err(e) => Err(e),
        Ok(branch) => match spec_label(labels, spec_target(i, branch)) {
            Err(e) => Err(e),
            Ok(found) => Ok((MethodEventView::JumpInsn { opcode, label: found.0 }, found.1)),
        },
    }
}

/// A number widened to a mathematical integer.
pub open spec fn widen16(r: ClassFileResult<i16>) -> ClassFileResult<int> {
    match r {
        Err(e) => Err(e),
        Ok(v) => Ok(v as int),
    }
}

/// A number widened to a mathematical integer.
pub open spec fn widen32(r: ClassFileResult<i32>) -> ClassFileResult<int> {
    match r {
        Err(e) => Err(e),
        Ok(v) => Ok(v as int),
    }
}

/// The instruction behind the `wide` prefix at `i`: a load, a store or `ret`
/// with an index of sixteen bits, or `iinc` with an index and an increment
/// of sixteen bits each. No other opcode may follow the prefix.
pub open spec fn spec_wide<'reader, 'class>(code: Seq<u8>, i: int) -> ClassFileResult<
    MethodEventView<'reader, 'class>,
> {
    match code_u8(code, i + 1) {
        Err(e) => Err(e),
        Ok(byte) => match spec_opcode(byte) {
            None => Err(ClassFileError::BadOpcode(byte)),
            Some(opcode) => if spec_shape(opcode) == Shape::Var {
                match code_u16(code, i + 2) {
                    Err(e) => Err(e),
                    Ok(var_index) => Ok(MethodEventView::VarInsn { opcode, var_index }),
                }
            } else if opcode == Opcode::IInc {
                match code_u16(code, i + 2) {
                    Err(e) => Err(e),
                    Ok(var_index) => match code_i16(code, i + 4) {
                        Err(e) => Err(e),
                        Ok(increment) => Ok(MethodEventView::IIncInsn { var_index, increment }),
                    },
                }
            } else {
                Err(ClassFileError::BadWideOpcode(opcode))
            },
        },
    }
}

/// The `remaining` branches of a `tableswitch` that start at `at`, behind
/// the labels found so far: each is four bytes, relative to the instruction
/// at `i`, and its target gets a label.
pub open spec fn spec_switch_labels_from(
    code: Seq<u8>,
    labels: Labels,
    i: int,
    at: int,
    remaining: int,
    found: Seq<Label>,
) -> ClassFileResult<(Seq<Label>, Labels)>
    decreases remaining,
{
    if remaining <= 0 {
        Ok((found, labels))
    } else {
        match code_i32(code, at) {
            Err(e) => Err(e),
            Ok(branch) => match spec_label(labels, spec_target(i, branch as int)) {
                Err(e) => Err(e),
                Ok(target) => spec_switch_labels_from(
                    code,
                    target.1,
                    i,
                    at + 4,
                    remaining - 1,
                    found.push(target.0),
                ),
            },
        }
    }
}

/// The `tableswitch` at `i`: behind the padding stand the default branch,
/// the lowest and the highest value, which must be in this order, and one
/// branch for each value from the lowest to the highest.
pub open spec fn spec_table_switch<'reader, 'class>(code: Seq<u8>, labels: Labels, i: int) -> Decoded<
    'reader,
    'class,
> {
    let base = spec_aligned(i + 1);
    match code_i32(code, base) {
        Err(e) => Err(e),
        Ok(dflt_branch) => match spec_label(labels, spec_target(i, dflt_branch as int)) {
            Err(e) => Err(e),
            Ok(dflt) => match code_i32(code, base + 4) {
                Err(e) => Err(e),
                Ok(low) => match code_i32(code, base + 8) {
                    Err(e) => Err(e),
                    Ok(high) => if low > high {
                        Err(ClassFileError::TableSwitchBoundsWrongOrder { low, high })
                    } else {
                        match spec_switch_labels_from(
                            code,
                            dflt.1,
                            i,
                            base + 12,
                            high - low + 1,
                            Seq::empty(),
                        ) {
                            Err(e) => Err(e),
                            Ok(found) => Ok(
                                (
                                    MethodEventView::TableSwitchInsn {
                                        low,
                                        high,
                                        dflt: dflt.0,
                                        labels: found.0,
                                    },
                                    found.1,
                                ),
                            ),
                        }
                    },
                },
            },
        },
    }
}

/// The `remaining` pairs of a `lookupswitch` that start at `at`, behind the
/// pairs found so far: each is a value and a branch of four bytes each, the
/// branch relative to the instruction at `i`, and its target gets a label.
pub open spec fn spec_switch_pairs_from(
    code: Seq<u8>,
    labels: Labels,
    i: int,
    at: int,
    remaining: int,
    found: Seq<(i32, Label)>,
) -> ClassFileResult<(Seq<(i32, Label)>, Labels)>
    decreases remaining,
{
    if remaining <= 0 {
        Ok((found, labels))
    } else {
        match code_i32(code, at) {
            Err(e) => Err(e),
            Ok(value) => match code_i32(code, at + 4) {
                Err(e) => Err(e),
                Ok(branch) => match spec_label(labels, spec_target(i, branch as int)) {
                    Err(e) => Err(e),
                    Ok(target) => spec_switch_pairs_from(
                        code,
                        target.1,
                        i,
                        at + 8,
                        remaining - 1,
                        found.push((value, target.0)),
                    ),
                },
            },
        }
    }
}

/// The `lookupswitch` at `i`: behind the padding stand the default branch,
/// the number of pairs and the pairs.
pub open spec fn spec_lookup_switch<'reader, 'class>(code: Seq<u8>, labels: Labels, i: int) -> Decoded<
    'reader,
    'class,
> {
    let base = spec_aligned(i + 1);
    match code_i32(code, base) {
        Err(e) => Err(e),
        Ok(dflt_branch) => match spec_label(labels, spec_target(i, dflt_branch as int)) {
            Err(e) => Err(e),
            Ok(dflt) => match code_u32(code, base + 4) {
                Err(e) => Err(e),
                Ok(npairs) => match spec_switch_pairs_from(
                    code,
                    dflt.1,
                    i,
                    base + 8,
                    npairs as int,
                    Seq::empty(),
                ) {
                    Err(e) => Err(e),
                    Ok(found) => Ok(
                        (MethodEventView::LookupSwitchInsn { dflt: dflt.0, values: found.0 }, found.1),
                    ),
                },
            },
        },
    }
}

/// The instruction with `opcode` at `i` that names an entry of the constant
/// pool: an access to a field, a call of a method, a dynamic call, or an
/// instruction on a class.
#[verifier::opaque]
pub open spec fn spec_pool_insn<'reader, 'class>(
    code: Seq<u8>,
    pool: Pool,
    table: ClassFileResult<Seq<BootstrapMethodView>>,
    i: int,
    opcode: Opcode,
) -> ClassFileResult<MethodEventView<'reader, 'class>> {
    match code_u16(code, i + 1) {
        Err(e) => Err(e),
        Ok(index) => match spec_shape(opcode) {
            Shape::Field => match spec_get_member(pool, index, ConstantPoolTag::FieldRef) {
                Err(e) => Err(e),
                Ok(field) => Ok(
                    MethodEventView::FieldInsn {
                        opcode,
                        owner: field.owner,
                        name: field.name,
                        desc: field.desc,
                    },
                ),
            },
            Shape::Method => match spec_get_type(pool, index) {
                Err(e) => Err(e),
                Ok(tag) => match spec_get_member(
                    pool,
                    index,
                    if tag == ConstantPoolTag::InterfaceMethodRef {
                        ConstantPoolTag::InterfaceMethodRef
                    } else {
                        ConstantPoolTag::MethodRef
                    },
                ) {
                    Err(e) => Err(e),
                    Ok(method) => Ok(
                        MethodEventView::MethodInsn {
                            opcode,
                            owner: method.owner,
                            name: method.name,
                            desc: method.desc,
                            is_interface: tag == ConstantPoolTag::InterfaceMethodRef,
                        },
                    ),
                },
            },
            Shape::InvokeDynamic => match spec_get_dynamic_of(pool, index, ConstantPoolTag::InvokeDynamic) {
                Err(e) => Err(e),
                Ok(dynamic) => match spec_bootstrap(table, dynamic.bootstrap_method_attr_index) {
                    Err(e) => Err(e),
                    Ok(method) => Ok(
                        MethodEventView::InvokeDynamicInsn {
                            name: dynamic.name,
                            desc: dynamic.desc,
                            bootstrap_method_handle: method.handle,
                            bootstrap_method_arguments: method.args,
                        },
                    ),
                },
            },
            Shape::MultiANewArray => match spec_get_name(pool, index, ConstantPoolTag::Class) {
                Err(e) => Err(e),
                Ok(desc) => match code_u8(code, i + 3) {
                    Err(e) => Err(e),
                    Ok(dimensions) => Ok(MethodEventView::MultiANewArrayInsn { desc, dimensions }),
                },
            },
            _ => match spec_get_name(pool, index, ConstantPoolTag::Class) {
                Err(e) => Err(e),
                Ok(ty) => Ok(MethodEventView::TypeInsn { opcode, ty }),
            },
        },
    }
}

/// The instruction with `opcode` at `i` whose operands are numbers in the
/// code itself.
pub open spec fn spec_operand_insn<'reader, 'class>(
    code: Seq<u8>,
    pool: Pool,
    table: ClassFileResult<Seq<BootstrapMethodView>>,
    i: int,
    opcode: Opcode,
) -> ClassFileResult<MethodEventView<'reader, 'class>> {
    match spec_shape(opcode) {
        Shape::BIPush => match code_u8(code, i + 1) {
            Err(e) => Err(e),
            Ok(v) => Ok(MethodEventView::BIPushInsn(signed(v as int, 0x80) as i8)),
        },
        Shape::SIPush => match code_i16(code, i + 1) {
            Err(e) => Err(e),
            Ok(v) => Ok(MethodEventView::SIPushInsn(v)),
        },
        Shape::Ldc => match code_u8(code, i + 1) {
            Err(e) => Err(e),
            Ok(index) => match spec_ldc_constant(pool, table, index as u16) {
                Err(e) => Err(e),
                Ok(constant) => Ok(MethodEventView::LdcInsn(constant)),
            },
        },
        Shape::Var => match code_u8(code, i + 1) {
            Err(e) => Err(e),
            Ok(v) => Ok(MethodEventView::VarInsn { opcode, var_index: v as u16 }),
        },
        Shape::IInc => match code_u8(code, i + 1) {
            Err(e) => Err(e),
            Ok(v) => match code_u8(code, i + 2) {
                Err(e) => Err(e),
                Ok(by) => Ok(
                    MethodEventView::IIncInsn {
                        var_index: v as u16,
                        increment: signed(by as int, 0x80) as i16,
                    },
                ),
            },
        },
        Shape::NewArray => match code_u8(code, i + 1) {
            Err(e) => Err(e),
            Ok(atype) => match spec_new_array_type(atype) {
                None => Err(ClassFileError::BadNewArrayType(atype)),
                Some(ty) => Ok(MethodEventView::NewArrayInsn(ty)),
            },
        },
        _ => Ok(MethodEventView::Insn(opcode)),
    }
}

/// Whether an instruction of this shape names an entry of the constant pool
/// in two bytes.
pub open spec fn spec_names_entry(shape: Shape) -> bool {
    shape == Shape::Field || shape == Shape::Method || shape == Shape::InvokeDynamic || shape
        == Shape::Type || shape == Shape::MultiANewArray
}

/// The instruction at offset `i` of `code`, and the labels after it. The
/// opcode byte says what follows. The short forms of loads and stores give
/// the index of their variable by their opcode; `ldc_w` and `ldc2_w` load a
/// constant as `ldc` does, `goto_w` and `jsr_w` jump as `goto` and `jsr` do,
/// with operands of twice the width.
pub open spec fn spec_insn<'reader, 'class>(
    code: Seq<u8>,
    pool: Pool,
    table: ClassFileResult<Seq<BootstrapMethodView>>,
    labels: Labels,
    i: int,
) -> Decoded<'reader, 'class> {
    let op = code[i];
    if op == 19 || op == 20 {
        match code_u16(code, i + 1) {
            Err(e) => Err(e),
            Ok(index) => match spec_ldc_constant(pool, table, index) {
                Err(e) => Err(e),
                Ok(constant) => Ok((MethodEventView::LdcInsn(constant), labels)),
            },
        }
    } else if 26 <= op <= 45 {
        Ok(
            (
                MethodEventView::VarInsn {
                    opcode: spec_load_opcode((op - 26) / 4),
                    var_index: ((op - 26) % 4) as u16,
                },
                labels,
            ),
        )
    } else if 59 <= op <= 78 {
        Ok(
            (
                MethodEventView::VarInsn {
                    opcode: spec_store_opcode((op - 59) / 4),
                    var_index: ((op - 59) % 4) as u16,
                },
                labels,
            ),
        )
    } else if op == 196 {
        plain(spec_wide(code, i), labels)
    } else if op == 200 {
        spec_jump(widen32(code_i32(code, i + 1)), Opcode::Goto, labels, i)
    } else if op == 201 {
        spec_jump(widen32(code_i32(code, i + 1)), Opcode::Jsr, labels, i)
    } else {
        match spec_opcode(op) {
            None => Err(ClassFileError::BadOpcode(op)),
            Some(opcode) => if spec_shape(opcode) == Shape::Jump {
                spec_jump(widen16(code_i16(code, i + 1)), opcode, labels, i)
            } else if spec_shape(opcode) == Shape::TableSwitch {
                spec_table_switch(code, labels, i)
            } else if spec_shape(opcode) == Shape::LookupSwitch {
                spec_lookup_switch(code, labels, i)
            } else if spec_names_entry(spec_shape(opcode)) {
                plain(spec_pool_insn(code, pool, table, i, opcode), labels)
            } else {
                plain(spec_operand_insn(code, pool, table, i, opcode), labels)
            },
        }
    }
}

/// Where the table of bootstrap methods of the class failed, a dynamic
/// constant cannot be loaded: to load it fails with the error of the table.
pub proof fn law_load_of_dynamic_fails_with_the_table(
    pool: Pool,
    table: ClassFileResult<Seq<BootstrapMethodView>>,
    index: u16,
)
    requires
        table is Err,
        spec_get(pool, index) is Ok,
        spec_get(pool, index)->Ok_0 is Dynamic,
    ensures
        spec_ldc_constant(pool, table, index) == Err::<LdcConstantView, ClassFileError>(table->Err_0),
{
    reveal(spec_ldc_constant);
}

/// Where the table of bootstrap methods of the class failed, the
/// instructions `ldc`, `ldc_w` and `ldc2_w` that name a dynamic constant
/// fail with the error of the table.
pub proof fn law_ldc_of_dynamic_fails_with_the_table<'reader, 'class>(
    code: Seq<u8>,
    pool: Pool,
    table: ClassFileResult<Seq<BootstrapMethodView>>,
    labels: Labels,
    i: int,
    index: u16,
)
    requires
        table is Err,
        0 <= i,
        code[i] == 18 && i + 2 <= code.len() && index == code[i + 1] || (code[i] == 19 || code[i] == 20) && i
            + 3 <= code.len() && index == be_u16(code, i + 1),
        spec_get(pool, index) is Ok,
        spec_get(pool, index)->Ok_0 is Dynamic,
    ensures
        spec_insn::<'reader, 'class>(code, pool, table, labels, i) == Err::<
            (MethodEventView<'reader, 'class>, Labels),
            ClassFileError,
        >(table->Err_0),
{
    law_load_of_dynamic_fails_with_the_table(pool, table, index);
    if code[i] == 18 {
        assert(spec_opcode(18u8) == Some(Opcode::Ldc));
        assert(spec_shape(Opcode::Ldc) == Shape::Ldc);
    }
}

/// The first instruction from offset `i` on that fails to decode, if there
/// is one: its offset, its error, and the labels that the instructions
/// before it have left.
pub open spec fn spec_first_failure<'reader, 'class>(
    code: Seq<u8>,
    pool: Pool,
    table: ClassFileResult<Seq<BootstrapMethodView>>,
    i: int,
    labels: Labels,
) -> Option<(int, ClassFileError, Labels)>
    decreases
            if i < code.len() {
                code.len() - i
            } else {
                0
            },
{
    if i >= code.len() || i < 0 {
        None
    } else {
        match spec_insn::<'reader, 'class>(code, pool, table, labels, i) {
            Err(e) => Some((i, e, labels)),
            Ok(found) => spec_first_failure(
                code,
                pool,
                table,
                if spec_width(code, i) > 0 {
                    i + spec_width(code, i)
                } else {
                    i + 1
                },
                found.1,
            ),
        }
    }
}

/// A code fails to decode exactly where one of its instructions fails, and
/// then with the error of the first instruction that fails. That
/// instruction stands where an instruction starts.
pub proof fn law_code_fails_with_its_first_failure<'reader, 'class>(
    code: Seq<u8>,
    pool: Pool,
    table: ClassFileResult<Seq<BootstrapMethodView>>,
    i: int,
    labels: Labels,
    insns: Seq<Option<MethodEventView<'reader, 'class>>>,
)
    requires
        0 <= i,
    ensures
        match spec_first_failure(code, pool, table, i, labels) {
            Some(failure) => spec_code_from(code, pool, table, i, labels, insns) == Err::<
                (Labels, Seq<Option<MethodEventView<'reader, 'class>>>),
                ClassFileError,
            >(failure.1) && i <= failure.0 < code.len() && spec_insn::<'reader, 'class>(
                code,
                pool,
                table,
                failure.2,
                failure.0,
            ) == Err::<(MethodEventView<'reader, 'class>, Labels), ClassFileError>(failure.1),
            None => spec_code_from(code, pool, table, i, labels, insns) is Ok,
        },
    decreases
            if i < code.len() {
                code.len() - i
            } else {
                0
            },
{
    if i < code.len() {
        match spec_insn::<'reader, 'class>(code, pool, table, labels, i) {
            Err(e) => {},
            Ok(found) => {
                law_code_fails_with_its_first_failure(
                    code,
                    pool,
                    table,
                    if spec_width(code, i) > 0 {
                        i + spec_width(code, i)
                    } else {
                        i + 1
                    },
                    found.1,
                    insns.update(i, Some(found.0)),
                );
            },
        }
    }
}

/// The code of a method of which an instruction fails to decode fails with
/// the error of the first instruction that fails, whatever follows in the
/// attribute.
pub proof fn law_failing_instruction_fails_the_code_of_the_method<'reader, 'class>(
    pool: Pool,
    skip_debug: bool,
    skip_frames: bool,
    table: ClassFileResult<Seq<BootstrapMethodView>>,
    offset: int,
    method: u16,
)
    requires
        0 <= offset,
        offset + 8 <= pool.data.len(),
        0 < be_u32(pool.data, offset + 4) <= 65535,
        offset + 8 + be_u32(pool.data, offset + 4) <= pool.data.len(),
        spec_first_failure(
            spec_code_bytes(pool.data, offset),
            pool,
            table,
            0,
            spec_empty_code::<'reader, 'class>(
                be_u16(pool.data, offset) as u16,
                be_u16(pool.data, offset + 2) as u16,
                be_u32(pool.data, offset + 4),
                method,
            ).labels,
        ) is Some,
    ensures
        spec_code_data::<'reader, 'class>(pool, skip_debug, skip_frames, table, offset, method) == Err::<
            CodeDataView<'reader, 'class>,
            ClassFileError,
        >(
            spec_first_failure(
                spec_code_bytes(pool.data, offset),
                pool,
                table,
                0,
                spec_empty_code::<'reader, 'class>(
                    be_u16(pool.data, offset) as u16,
                    be_u16(pool.data, offset + 2) as u16,
                    be_u32(pool.data, offset + 4),
                    method,
                ).labels,
            )->Some_0.1,
        ),
{
    reveal(spec_code_tables);
    let empty = spec_empty_code::<'reader, 'class>(
        be_u16(pool.data, offset) as u16,
        be_u16(pool.data, offset + 2) as u16,
        be_u32(pool.data, offset + 4),
        method,
    );
    law_code_fails_with_its_first_failure(
        spec_code_bytes(pool.data, offset),
        pool,
        table,
        0,
        empty.labels,
        empty.insns,
    );
}

/// The constant that `ldc` loads from slot `index`.
pub fn get_ldc_constant(pool: &ConstantPool, index: u16, bootstrap_methods: &BootstrapMethods) -> (r:
    ClassFileResult<LdcConstant>)
    ensures
        crate::error::deep(r) == spec_ldc_constant(pool@, bootstrap_methods.deep_view(), index),
{
    reveal(spec_ldc_constant);
    match pool.get(index)? {
        ConstantPoolEntry::Integer(v) => Ok(LdcConstant::Integer(v)),
        ConstantPoolEntry::Float(v) => Ok(LdcConstant::Float(v)),
        ConstantPoolEntry::Long(v) => Ok(LdcConstant::Long(v)),
        ConstantPoolEntry::Double(v) => Ok(LdcConstant::Double(v)),
        ConstantPoolEntry::String(v) => Ok(LdcConstant::String(v)),
        ConstantPoolEntry::Class(v) => Ok(LdcConstant::Class(v)),
        ConstantPoolEntry::MethodType(v) => Ok(LdcConstant::MethodType(v)),
        ConstantPoolEntry::MethodHandle(v) => Ok(LdcConstant::Handle(v)),
        ConstantPoolEntry::Dynamic(d) => {
            let method = bootstrap_methods.get(d.bootstrap_method_attr_index)?.clone();
            let constant = ConstantDynamic {
                name: d.name,
                desc: d.desc,
                bootstrap_method: method.handle,
                bootstrap_method_arguments: method.args,
            };
            proof {
                lemma_constant_dynamic_view(constant);
            }
            Ok(LdcConstant::ConstantDynamic(constant))
        },
        _ => Err(ClassFileError::BadConstantPoolTypeExpectedLdcOperand(pool.get_type(index)?)),
    }
}

/// The load opcode of the short form with number `k`.
fn load_opcode(k: u8) -> (r: Opcode)
    ensures
        r == spec_load_opcode(k as int),
{
    match k {
        0 => Opcode::ILoad,
        1 => Opcode::LLoad,
        2 => Opcode::FLoad,
        3 => Opcode::DLoad,
        _ => Opcode::ALoad,
    }
}

/// The store opcode of the short form with number `k`.
fn store_opcode(k: u8) -> (r: Opcode)
    ensures
        r == spec_store_opcode(k as int),
{
    match k {
        0 => Opcode::IStore,
        1 => Opcode::LStore,
        2 => Opcode::FStore,
        3 => Opcode::DStore,
        _ => Opcode::AStore,
    }
}

/// Decodes the jump with `opcode` from the instruction at `i` by `branch`
/// bytes.
fn read_jump<'reader, 'class>(branch: i32, opcode: Opcode, labels: &mut LabelTable, i: usize) -> (r:
    ClassFileResult<MethodEvent<'reader, 'class>>)
    requires
        i <= 0xffff,
        labels_wf(old(labels)@),
    ensures
        r is Ok ==> spec_is_insn(r->Ok_0.deep_view()),
        r is Ok ==> r->Ok_0.deep_view() is JumpInsn && spec_label_at(
            final(labels)@,
            spec_target(i as int, branch as int),
        ) == Some(r->Ok_0.deep_view()->JumpInsn_label),
        labels_wf(final(labels)@),
        extends(old(labels)@, final(labels)@),
        match spec_jump::<'reader, 'class>(
            Ok::<int, ClassFileError>(branch as int),
            opcode,
            old(labels)@,
            i as int,
        ) {
            Ok(found) => r is Ok && r->Ok_0.deep_view() == found.0 && final(labels)@ == found.1,
            Err(e) => r == Err::<MethodEvent<'reader, 'class>, ClassFileError>(e),
        },
{
    let label = labels.get_or_create_label(branch_target(i, branch))?;
    Ok(MethodEvent::JumpInsn { opcode, label })
}

/// Decodes the instruction behind the `wide` prefix at `i`, and gives the
/// offset behind it.
fn read_wide<'reader, 'class>(code: &[u8], i: usize) -> (r: ClassFileResult<
    (MethodEvent<'reader, 'class>, usize),
>)
    requires
        i < code@.len() <= 0xffff,
        code@[i as int] == 196,
    ensures
        r is Ok ==> spec_is_insn(r->Ok_0.0.deep_view()) && !spec_names_label(r->Ok_0.0.deep_view()),
        match spec_wide::<'reader, 'class>(code@, i as int) {
            Ok(event) => r is Ok && r->Ok_0.0.deep_view() == event && r->Ok_0.1 == i + spec_width(
                code@,
                i as int,
            ),
            Err(e) => r == Err::<(MethodEvent<'reader, 'class>, usize), ClassFileError>(e),
        },
{
    let next_opcode = Opcode::from_u8(get_code(code, i + 1)?)?;
    match shape(next_opcode) {
        Shape::Var => {
            let var_index: u16 = get_code_u16(code, i + 2)?;
            Ok((MethodEvent::VarInsn { opcode: next_opcode, var_index }, i + 4))
        },
        Shape::IInc => {
            let var_index: u16 = get_code_u16(code, i + 2)?;
            let increment: i16 = get_code_i16(code, i + 4)?;
            Ok((MethodEvent::IIncInsn { var_index, increment }, i + 6))
        },
        _ => Err(ClassFileError::BadWideOpcode(next_opcode)),
    }
}

/// The first multiple of four that is not below `offset`.
fn aligned(offset: usize) -> (r: usize)
    requires
        offset <= 0x1_0000,
    ensures
        r == spec_aligned(offset as int),
        offset <= r <= offset + 3,
{
    (offset + 3) / 4 * 4
}

/// Decodes the `tableswitch` at `i`, and gives the offset behind it.
fn read_table_switch<'reader, 'class>(code: &[u8], labels: &mut LabelTable, i: usize) -> (r: ClassFileResult<
    (MethodEvent<'reader, 'class>, usize),
>)
    requires
        i < code@.len() <= 0xffff,
        code@[i as int] == 170,
        labels_wf(old(labels)@),
    ensures
        r is Ok ==> spec_is_insn(r->Ok_0.0.deep_view()),
        r is Ok ==> spec_targets_labelled(code@, i as int, r->Ok_0.0.deep_view(), final(labels)@),
        labels_wf(final(labels)@),
        extends(old(labels)@, final(labels)@),
        match spec_table_switch::<'reader, 'class>(code@, old(labels)@, i as int) {
            Ok(found) => r is Ok && r->Ok_0.0.deep_view() == found.0 && final(labels)@ == found.1
                && r->Ok_0.1 == i + spec_width(code@, i as int),
            Err(e) => r == Err::<(MethodEvent<'reader, 'class>, usize), ClassFileError>(e),
        },
        r is Ok ==> i < r->Ok_0.1 <= code@.len(),
{
    let base: usize = aligned(i + 1);
    let dflt_branch: i32 = get_code_i32(code, base)?;
    let dflt = labels.get_or_create_label(branch_target(i, dflt_branch))?;
    let low: i32 = get_code_i32(code, base + 4)?;
    let high: i32 = get_code_i32(code, base + 8)?;
    if low > high {
        return Err(ClassFileError::TableSwitchBoundsWrongOrder { low, high });
    }
    let count: u64 = (high as i64 - low as i64 + 1) as u64;
    let ghost start = labels@;
    let mut found: Vec<Label> = Vec::new();
    let mut at: usize = base + 12;
    let mut k: u64 = 0;
    while k < count
        invariant
            i < code@.len() <= 0xffff,
            k <= count,
            at == base + 12 + 4 * k,
            at <= code@.len(),
            labels_wf(labels@),
            extends(old(labels)@, labels@),
            count == high - low + 1,
            base == spec_aligned(i + 1),
            found@.len() == k,
            spec_label_at(labels@, spec_branch_at(code@, i as int, base as int)) == Some(dflt),
            forall|j: int|
                0 <= j < found@.len() ==> spec_label_at(
                    labels@,
                    spec_branch_at(code@, i as int, base + 12 + 4 * j),
                ) == Some(#[trigger] found@[j]),
            spec_width(code@, i as int) == base - i + 16 + 4 * (high - low),
            spec_table_switch::<'reader, 'class>(code@, old(labels)@, i as int) == match spec_switch_labels_from(
                code@,
                labels@,
                i as int,
                at as int,
                count - k,
                found@,
            ) {
                Err(e) => Err::<(MethodEventView<'reader, 'class>, Labels), ClassFileError>(e),
                Ok(rest) => Ok(
                    (MethodEventView::TableSwitchInsn { low, high, dflt, labels: rest.0 }, rest.1),
                ),
            },
        decreases count - k,
    {
        let branch: i32 = get_code_i32(code, at)?;
        let ghost before = labels@;
        let ghost so_far = found@;
        let label = labels.get_or_create_label(branch_target(i, branch))?;
        found.push(label);
        proof {
            assert(before.labels[spec_branch_at(code@, i as int, base as int) as int] is Some);
            assert forall|j: int| 0 <= j < found@.len() implies spec_label_at(
                labels@,
                spec_branch_at(code@, i as int, base + 12 + 4 * j),
            ) == Some(#[trigger] found@[j]) by {
                if j < so_far.len() {
                    let known = so_far[j];
                    assert(spec_label_at(before, spec_branch_at(code@, i as int, base + 12 + 4 * j)) == Some(
                        known,
                    ));
                    assert(before.labels[spec_branch_at(code@, i as int, base + 12 + 4 * j) as int] is Some);
                }
            }
        }
        at = at + 4;
        k = k + 1;
    }
    Ok((MethodEvent::TableSwitchInsn { low, high, dflt, labels: found }, at))
}

/// Decodes the `lookupswitch` at `i`, and gives the offset behind it.
fn read_lookup_switch<'reader, 'class>(code: &[u8], labels: &mut LabelTable, i: usize) -> (r:
    ClassFileResult<(MethodEvent<'reader, 'class>, usize)>)
    requires
        i < code@.len() <= 0xffff,
        code@[i as int] == 171,
        labels_wf(old(labels)@),
    ensures
        r is Ok ==> spec_is_insn(r->Ok_0.0.deep_view()),
        r is Ok ==> spec_targets_labelled(code@, i as int, r->Ok_0.0.deep_view(), final(labels)@),
        labels_wf(final(labels)@),
        extends(old(labels)@, final(labels)@),
        match spec_lookup_switch::<'reader, 'class>(code@, old(labels)@, i as int) {
            Ok(found) => r is Ok && r->Ok_0.0.deep_view() == found.0 && final(labels)@ == found.1
                && r->Ok_0.1 == i + spec_width(code@, i as int),
            Err(e) => r == Err::<(MethodEvent<'reader, 'class>, usize), ClassFileError>(e),
        },
        r is Ok ==> i < r->Ok_0.1 <= code@.len(),
{
    let base: usize = aligned(i + 1);
    let dflt_branch: i32 = get_code_i32(code, base)?;
    let dflt = labels.get_or_create_label(branch_target(i, dflt_branch))?;
    let npairs: u32 = get_code_u32(code, base + 4)?;
    let ghost start = labels@;
    let mut found: Vec<(i32, Label)> = Vec::new();
    let mut at: usize = base + 8;
    let mut k: u32 = 0;
    while k < npairs
        invariant
            i < code@.len() <= 0xffff,
            k <= npairs,
            at == base + 8 + 8 * k,
            at <= code@.len(),
            labels_wf(labels@),
            extends(old(labels)@, labels@),
            base == spec_aligned(i + 1),
            found@.len() == k,
            spec_label_at(labels@, spec_branch_at(code@, i as int, base as int)) == Some(dflt),
            forall|j: int|
                0 <= j < found@.len() ==> spec_label_at(
                    labels@,
                    spec_branch_at(code@, i as int, base + 12 + 8 * j),
                ) == Some((#[trigger] found@[j]).1),
            spec_width(code@, i as int) == base - i + 8 + 8 * npairs,
            spec_lookup_switch::<'reader, 'class>(code@, old(labels)@, i as int) == match spec_switch_pairs_from(
                code@,
                labels@,
                i as int,
                at as int,
                npairs - k,
                found@,
            ) {
                Err(e) => Err::<(MethodEventView<'reader, 'class>, Labels), ClassFileError>(e),
                Ok(rest) => Ok((MethodEventView::LookupSwitchInsn { dflt, values: rest.0 }, rest.1)),
            },
        decreases npairs - k,
    {
        let value: i32 = get_code_i32(code, at)?;
        let branch: i32 = get_code_i32(code, at + 4)?;
        let ghost before = labels@;
        let ghost so_far = found@;
        let label = labels.get_or_create_label(branch_target(i, branch))?;
        found.push((value, label));
        proof {
            assert(before.labels[spec_branch_at(code@, i as int, base as int) as int] is Some);
            assert forall|j: int| 0 <= j < found@.len() implies spec_label_at(
                labels@,
                spec_branch_at(code@, i as int, base + 12 + 8 * j),
            ) == Some((#[trigger] found@[j]).1) by {
                if j < so_far.len() {
                    let known = so_far[j];
                    assert(spec_label_at(before, spec_branch_at(code@, i as int, base + 12 + 8 * j)) == Some(
                        known.1,
                    ));
                    assert(before.labels[spec_branch_at(code@, i as int, base + 12 + 8 * j) as int] is Some);
                }
            }
        }
        at = at + 8;
        k = k + 1;
    }
    Ok((MethodEvent::LookupSwitchInsn { dflt, values: found }, at))
}

/// Decodes the instruction with `opcode` at `i` that names an entry of the
/// constant pool.
fn read_pool_insn<'reader, 'class>(
    code: &[u8],
    pool: &ConstantPool,
    bootstrap_methods: &BootstrapMethods,
    i: usize,
    opcode: Opcode,
) -> (r: ClassFileResult<MethodEvent<'reader, 'class>>)
    requires
        i < code@.len() <= 0xffff,
        spec_names_entry(spec_shape(opcode)),
    ensures
        r is Ok ==> spec_is_insn(r->Ok_0.deep_view()) && !spec_names_label(r->Ok_0.deep_view()),
        crate::error::deep(r) == spec_pool_insn::<'reader, 'class>(
            code@,
            pool@,
            bootstrap_methods.deep_view(),
            i as int,
            opcode,
        ),
{
    reveal(spec_pool_insn);
    let cp_index: u16 = get_code_u16(code, i + 1)?;
    match shape(opcode) {
        Shape::Field => {
            let field = pool.get_field_ref(cp_index)?;
            Ok(MethodEvent::FieldInsn { opcode, owner: field.owner, name: field.name, desc: field.desc })
        },
        Shape::Method => {
            let is_interface: bool = pool.get_type(cp_index)? == ConstantPoolTag::InterfaceMethodRef;
            let method = if is_interface {
                pool.get_interface_method_ref(cp_index)?
            } else {
                pool.get_method_ref(cp_index)?
            };
            Ok(
                MethodEvent::MethodInsn {
                    opcode,
                    owner: method.owner,
                    name: method.name,
                    desc: method.desc,
                    is_interface,
                },
            )
        },
        Shape::InvokeDynamic => {
            let dynamic = pool.get_invoke_dynamic(cp_index)?;
            let method = bootstrap_methods.get(dynamic.bootstrap_method_attr_index)?.clone();
            Ok(
                MethodEvent::InvokeDynamicInsn {
                    name: dynamic.name,
                    desc: dynamic.desc,
                    bootstrap_method_handle: method.handle,
                    bootstrap_method_arguments: method.args,
                },
            )
        },
        Shape::MultiANewArray => {
            let desc = pool.get_class(cp_index)?;
            let dimensions: u8 = get_code(code, i + 3)?;
            Ok(MethodEvent::MultiANewArrayInsn { desc, dimensions })
        },
        _ => {
            let ty = pool.get_class(cp_index)?;
            Ok(MethodEvent::TypeInsn { opcode, ty })
        },
    }
}

/// Decodes the instruction with `opcode` at `i` whose operands are numbers
/// in the code itself.
fn read_operand_insn<'reader, 'class>(
    code: &[u8],
    pool: &ConstantPool,
    bootstrap_methods: &BootstrapMethods,
    i: usize,
    opcode: Opcode,
) -> (r: ClassFileResult<MethodEvent<'reader, 'class>>)
    requires
        i < code@.len() <= 0xffff,
    ensures
        r is Ok ==> spec_is_insn(r->Ok_0.deep_view()) && !spec_names_label(r->Ok_0.deep_view()),
        crate::error::deep(r) == spec_operand_insn::<'reader, 'class>(
            code@,
            pool@,
            bootstrap_methods.deep_view(),
            i as int,
            opcode,
        ),
{
    match shape(opcode) {
        Shape::BIPush => Ok(MethodEvent::BIPushInsn(to_i8(get_code(code, i + 1)?))),
        Shape::SIPush => Ok(MethodEvent::SIPushInsn(get_code_i16(code, i + 1)?)),
        Shape::Ldc => {
            let cst_index: u16 = get_code(code, i + 1)? as u16;
            Ok(MethodEvent::LdcInsn(get_ldc_constant(pool, cst_index, bootstrap_methods)?))
        },
        Shape::Var => {
            let var_index: u16 = get_code(code, i + 1)? as u16;
            Ok(MethodEvent::VarInsn { opcode, var_index })
        },
        Shape::IInc => {
            let var_index: u16 = get_code(code, i + 1)? as u16;
            let increment: i16 = to_i8(get_code(code, i + 2)?) as i16;
            Ok(MethodEvent::IIncInsn { var_index, increment })
        },
        Shape::NewArray => {
            let atype = NewArrayType::from_u8(get_code(code, i + 1)?)?;
            Ok(MethodEvent::NewArrayInsn(atype))
        },
        _ => Ok(MethodEvent::Insn(opcode)),
    }
}

/// Decodes the instruction at offset `i` of `code`, and gives the offset
/// behind it.
pub(crate) fn read_insn<'reader, 'class>(
    code: &[u8],
    pool: &ConstantPool,
    bootstrap_methods: &BootstrapMethods,
    labels: &mut LabelTable,
    i: usize,
) -> (r: ClassFileResult<(MethodEvent<'reader, 'class>, usize)>)
    requires
        i < code@.len() <= 0xffff,
        labels_wf(old(labels)@),
    ensures
        r is Ok ==> spec_is_insn(r->Ok_0.0.deep_view()),
        r is Ok ==> spec_targets_labelled(code@, i as int, r->Ok_0.0.deep_view(), final(labels)@),
        labels_wf(final(labels)@),
        extends(old(labels)@, final(labels)@),
        match spec_insn::<'reader, 'class>(
            code@,
            pool@,
            bootstrap_methods.deep_view(),
            old(labels)@,
            i as int,
        ) {
            Ok(found) => r is Ok && r->Ok_0.0.deep_view() == found.0 && final(labels)@ == found.1
                && r->Ok_0.1 == i + spec_width(code@, i as int),
            Err(e) => r == Err::<(MethodEvent<'reader, 'class>, usize), ClassFileError>(e),
        },
        r is Ok ==> i < r->Ok_0.1 <= code@.len() + 5,
{
    let op: u8 = code[i];
    if op == 19 || op == 20 {
        let cst_index: u16 = get_code_u16(code, i + 1)?;
        let constant = get_ldc_constant(pool, cst_index, bootstrap_methods)?;
        Ok((MethodEvent::LdcInsn(constant), i + 3))
    } else if 26 <= op && op <= 45 {
        Ok((MethodEvent::VarInsn { opcode: load_opcode((op - 26) / 4), var_index: ((op - 26) % 4) as u16 }, i + 1))
    } else if 59 <= op && op <= 78 {
        Ok(
            (
                MethodEvent::VarInsn { opcode: store_opcode((op - 59) / 4), var_index: ((op - 59) % 4) as u16 },
                i + 1,
            ),
        )
    } else if op == 196 {
        read_wide(code, i)
    } else if op == 200 {
        let branch: i32 = get_code_i32(code, i + 1)?;
        Ok((read_jump(branch, Opcode::Goto, labels, i)?, i + 5))
    } else if op == 201 {
        let branch: i32 = get_code_i32(code, i + 1)?;
        Ok((read_jump(branch, Opcode::Jsr, labels, i)?, i + 5))
    } else {
        let opcode = Opcode::from_u8(op)?;
        match shape(opcode) {
            Shape::Jump => {
                let branch: i16 = get_code_i16(code, i + 1)?;
                Ok((read_jump(branch as i32, opcode, labels, i)?, i + 3))
            },
            Shape::TableSwitch => read_table_switch(code, labels, i),
            Shape::LookupSwitch => read_lookup_switch(code, labels, i),
            Shape::Field | Shape::Type => Ok(
                (read_pool_insn(code, pool, bootstrap_methods, i, opcode)?, i + 3),
            ),
            Shape::Method => {
                let width: usize = match opcode {
                    Opcode::InvokeInterface => 5,
                    _ => 3,
                };
                Ok((read_pool_insn(code, pool, bootstrap_methods, i, opcode)?, i + width))
            },
            Shape::InvokeDynamic => Ok((read_pool_insn(code, pool, bootstrap_methods, i, opcode)?, i + 5)),
            Shape::MultiANewArray => Ok(
                (read_pool_insn(code, pool, bootstrap_methods, i, opcode)?, i + 4),
            ),
            Shape::BIPush | Shape::Ldc | Shape::Var | Shape::NewArray => Ok(
                (read_operand_insn(code, pool, bootstrap_methods, i, opcode)?, i + 2),
            ),
            Shape::SIPush | Shape::IInc => Ok(
                (read_operand_insn(code, pool, bootstrap_methods, i, opcode)?, i + 3),
            ),
            Shape::Plain => Ok((read_operand_insn(code, pool, bootstrap_methods, i, opcode)?, i + 1)),
        }
    }
}

/// The instructions from offset `i` on, entered at their offsets behind
/// those found so far, and the labels after them.
pub open spec fn spec_code_from<'reader, 'class>(
    code: Seq<u8>,
    pool: Pool,
    table: ClassFileResult<Seq<BootstrapMethodView>>,
    i: int,
    labels: Labels,
    insns: Seq<Option<MethodEventView<'reader, 'class>>>,
) -> ClassFileResult<(Labels, Seq<Option<MethodEventView<'reader, 'class>>>)>
    decreases
            if i < code.len() {
                code.len() - i
            } else {
                0
            },
{
    if i >= code.len() || i < 0 {
        Ok((labels, insns))
    } else {
        match spec_insn(code, pool, table, labels, i) {
            Err(e) => Err(e),
            Ok(found) => spec_code_from(
                code,
                pool,
                table,
                if spec_width(code, i) > 0 {
                    i + spec_width(code, i)
                } else {
                    i + 1
                },
                found.1,
                insns.update(i, Some(found.0)),
            ),
        }
    }
}

/// Decodes the instructions of `code`, one after the other from offset
/// zero, and enters each at its offset. Every target of a jump gets a label.
///
/// The offsets at which an instruction is entered are those at which one
/// starts: offset zero, and behind each instruction the offset that lies
/// the encoded width of the instruction behind its own.
pub(crate) fn read_code<'reader, 'class>(
    code: &[u8],
    pool: &ConstantPool,
    bootstrap_methods: &BootstrapMethods,
    labels: &mut LabelTable,
    insns: &mut Vec<Option<MethodEvent<'reader, 'class>>>,
) -> (r: ClassFileResult<()>)
    requires
        code@.len() <= 0xffff,
        old(insns)@.len() == code@.len() + 1,
        forall|j: int| 0 <= j < old(insns)@.len() ==> (#[trigger] old(insns)@[j]) is None,
        labels_wf(old(labels)@),
    ensures
        r is Ok ==> spec_all_insns(final(insns).deep_view()),
        r is Ok ==> spec_all_targets_labelled(code@, final(insns).deep_view(), final(labels)@),
        labels_wf(final(labels)@),
        extends(old(labels)@, final(labels)@),
        final(insns)@.len() == old(insns)@.len(),
        match spec_code_from(
            code@,
            pool@,
            bootstrap_methods.deep_view(),
            0,
            old(labels)@,
            old(insns).deep_view(),
        ) {
            Ok(found) => r is Ok && final(labels)@ == found.0 && final(insns).deep_view() == found.1,
            Err(e) => r == Err::<(), ClassFileError>(e),
        },
        r is Ok ==> forall|j: int|
            0 <= j < code@.len() ==> ((#[trigger] final(insns)@[j]) is Some <==> spec_is_start(code@, j)),
        r is Ok ==> final(insns)@[code@.len() as int] is None,
{
    let mut i: usize = 0;
    while i < code.len()
        invariant
            code@.len() <= 0xffff,
            insns@.len() == code@.len() + 1,
            insns@.len() == old(insns)@.len(),
            i <= code@.len() + 5,
            labels_wf(labels@),
            extends(old(labels)@, labels@),
            spec_reaches(code@, 0, i as int),
            insns@[code@.len() as int] is None,
            spec_all_insns(insns.deep_view()),
            spec_all_targets_labelled(code@, insns.deep_view(), labels@),
            forall|j: int|
                0 <= j < i && j < code@.len() ==> ((#[trigger] insns@[j]) is Some <==> spec_is_start(
                    code@,
                    j,
                )),
            forall|j: int| i <= j < insns@.len() ==> (#[trigger] insns@[j]) is None,
            spec_code_from(
                code@,
                pool@,
                bootstrap_methods.deep_view(),
                0,
                old(labels)@,
                old(insns).deep_view(),
            ) == spec_code_from(
                code@,
                pool@,
                bootstrap_methods.deep_view(),
                i as int,
                labels@,
                insns.deep_view(),
            ),
        decreases code@.len() + 5 - i,
    {
        let ghost known = labels@;
        let (insn, next) = read_insn(code, pool, bootstrap_methods, labels, i)?;
        let ghost before = insns.deep_view();
        let ghost shallow = insns@;
        let ghost added = insn.deep_view();
        insns[i] = Some(insn);
        proof {
            assert(insns.deep_view() =~= before.update(i as int, Some(added)));
            lemma_all_targets_stay_labelled(code@, before, known, labels@);
            assert(spec_all_targets_labelled(code@, insns.deep_view(), labels@)) by {
                assert forall|j: int|
                    0 <= j < insns.deep_view().len() && (#[trigger] insns.deep_view()[j]) is Some implies
                    spec_targets_labelled(code@, j, insns.deep_view()[j]->Some_0, labels@) by {
                    if j != i {
                        assert(before[j] is Some);
                    }
                }
            }
            assert(spec_all_insns(insns.deep_view())) by {
                assert forall|j: int|
                    0 <= j < insns.deep_view().len() && (#[trigger] insns.deep_view()[j]) is Some implies
                    spec_is_insn(insns.deep_view()[j]->Some_0) by {
                    if j != i {
                        assert(before[j] is Some);
                    }
                }
            }
            assert forall|j: int| 0 <= j < next && j < code@.len() implies ((#[trigger] insns@[j]) is Some
                <==> spec_is_start(code@, j)) by {
                if j > i {
                    lemma_reaches_from(code@, 0, i as int, j);
                    assert(insns@[j] == shallow[j]);
                } else if j < i {
                    assert(insns@[j] == shallow[j]);
                }
            }
            lemma_reaches_from(code@, 0, i as int, next as int);
            assert(spec_reaches(code@, next as int, next as int));
            assert forall|j: int| next <= j < insns@.len() implies (#[trigger] insns@[j]) is None by {
                assert(insns@[j] == shallow[j]);
            }
        }
        i = next;
    }
    Ok(())
}

/// The views of a list of verification types.
pub open spec fn frame_values_view(values: Seq<FrameValue>) -> Seq<FrameValueView> {
    Seq::new(values.len(), |i: int| values[i].deep_view())
}

/// The verification type that starts at `offset`, the labels after it and
/// the offset behind it. A tag from zero to six is a type by itself; tag
/// seven comes with the slot of a class, tag eight with the offset of a
/// `new` instruction, which gets a label.
pub open spec fn spec_frame_value(pool: Pool, labels: Labels, offset: int) -> ClassFileResult<
    (FrameValueView, Labels, int),
> {
    match spec_read_u8(pool.data, offset) {
        Err(e) => Err(e),
        Ok(tag) => if tag == 0 {
            Ok((FrameValueView::Top, labels, offset + 1))
        } else if tag == 1 {
            Ok((FrameValueView::Integer, labels, offset + 1))
        } else if tag == 2 {
            Ok((FrameValueView::Float, labels, offset + 1))
        } else if tag == 3 {
            Ok((FrameValueView::Double, labels, offset + 1))
        } else if tag == 4 {
            Ok((FrameValueView::Long, labels, offset + 1))
        } else if tag == 5 {
            Ok((FrameValueView::Null, labels, offset + 1))
        } else if tag == 6 {
            Ok((FrameValueView::UninitializedThis, labels, offset + 1))
        } else if tag == 7 {
            match crate::constant_pool::spec_name_at(pool, offset + 1, ConstantPoolTag::Class) {
                Err(e) => Err(e),
                Ok(ty) => Ok((FrameValueView::Class(ty), labels, offset + 3)),
            }
        } else if tag == 8 {
            match spec_read_u16(pool.data, offset + 1) {
                Err(e) => Err(e),
                Ok(pc) => match spec_label(labels, pc as usize) {
                    Err(e) => Err(e),
                    Ok(found) => Ok((FrameValueView::Uninitialized(found.0), found.1, offset + 3)),
                },
            }
        } else {
            Err(ClassFileError::BadFrameValueTag(tag))
        },
    }
}

/// The `remaining` verification types that start at `offset`, behind those
/// found so far.
pub open spec fn spec_frame_values_from(
    pool: Pool,
    labels: Labels,
    offset: int,
    remaining: int,
    found: Seq<FrameValueView>,
) -> ClassFileResult<(Seq<FrameValueView>, Labels, int)>
    decreases remaining,
{
    if remaining <= 0 {
        Ok((found, labels, offset))
    } else {
        match spec_frame_value(pool, labels, offset) {
            Err(e) => Err(e),
            Ok(value) => spec_frame_values_from(pool, value.1, value.2, remaining - 1, found.push(value.0)),
        }
    }
}

/// A decoded frame: how far it lies behind the frame before it, the frame,
/// the labels after it, and the offset behind it in the file.
pub struct DecodedFrame {
    pub offset_delta: u16,
    pub frame: FrameView,
    pub labels: Labels,
    pub end: int,
}

/// The frame of type `frame_type` whose body starts at `at`. The type says
/// what the frame is: same (0 to 63, the type is the distance), same with
/// one stack value (64 to 127, the distance is the type less 64), the same
/// with the distance written out (247), chop (248 to 250), same with the
/// distance written out (251), append (252 to 254), or full (255).
#[verifier::opaque]
pub open spec fn spec_frame_body(pool: Pool, labels: Labels, frame_type: u8, at: int) -> ClassFileResult<
    DecodedFrame,
> {
    if frame_type <= 63 {
        Ok(DecodedFrame { offset_delta: frame_type as u16, frame: FrameView::Same, labels, end: at })
    } else if frame_type <= 127 {
        match spec_frame_value(pool, labels, at) {
            Err(e) => Err(e),
            Ok(value) => Ok(
                DecodedFrame {
                    offset_delta: (frame_type - 64) as u16,
                    frame: FrameView::Same1 { stack_value: value.0 },
                    labels: value.1,
                    end: value.2,
                },
            ),
        }
    } else if frame_type < 247 {
        Err(ClassFileError::BadFrameType(frame_type))
    } else {
        match spec_read_u16(pool.data, at) {
            Err(e) => Err(e),
            Ok(offset_delta) => if frame_type == 247 {
                match spec_frame_value(pool, labels, at + 2) {
                    Err(e) => Err(e),
                    Ok(value) => Ok(
                        DecodedFrame {
                            offset_delta,
                            frame: FrameView::Same1 { stack_value: value.0 },
                            labels: value.1,
                            end: value.2,
                        },
                    ),
                }
            } else if frame_type <= 250 {
                Ok(
                    DecodedFrame {
                        offset_delta,
                        frame: FrameView::Chop { num_locals: (251 - frame_type) as u8 },
                        labels,
                        end: at + 2,
                    },
                )
            } else if frame_type == 251 {
                Ok(DecodedFrame { offset_delta, frame: FrameView::Same, labels, end: at + 2 })
            } else if frame_type <= 254 {
                match spec_frame_values_from(pool, labels, at + 2, frame_type - 251, Seq::empty()) {
                    Err(e) => Err(e),
                    Ok(locals) => Ok(
                        DecodedFrame {
                            offset_delta,
                            frame: FrameView::Append { locals: locals.0 },
                            labels: locals.1,
                            end: locals.2,
                        },
                    ),
                }
            } else {
                match spec_read_u16(pool.data, at + 2) {
                    Err(e) => Err(e),
                    Ok(local_count) => match spec_frame_values_from(
                        pool,
                        labels,
                        at + 4,
                        local_count as int,
                        Seq::empty(),
                    ) {
                        Err(e) => Err(e),
                        Ok(locals) => match spec_read_u16(pool.data, locals.2) {
                            Err(e) => Err(e),
                            Ok(stack_count) => match spec_frame_values_from(
                                pool,
                                locals.1,
                                locals.2 + 2,
                                stack_count as int,
                                Seq::empty(),
                            ) {
                                Err(e) => Err(e),
                                Ok(stack) => Ok(
                                    DecodedFrame {
                                        offset_delta,
                                        frame: FrameView::Full { locals: locals.0, stack: stack.0 },
                                        labels: stack.1,
                                        end: stack.2,
                                    },
                                ),
                            },
                        },
                    },
                }
            },
        }
    }
}

/// The frame that starts at `offset`. In the compressed form the frame
/// starts with its type; in the old form every frame is a full frame.
pub open spec fn spec_frame(pool: Pool, labels: Labels, offset: int, compressed: bool) -> ClassFileResult<
    DecodedFrame,
> {
    if compressed {
        match spec_read_u8(pool.data, offset) {
            Err(e) => Err(e),
            Ok(frame_type) => spec_frame_body(pool, labels, frame_type, offset + 1),
        }
    } else {
        spec_frame_body(pool, labels, 255, offset)
    }
}

/// The offset in the code at which a frame holds that lies `offset_delta`
/// behind the frame before it, which holds at `last`: the first frame holds
/// at its distance, each later one a step more than its distance behind the
/// one before.
pub open spec fn spec_frame_offset(last: Option<usize>, offset_delta: u16) -> int {
    match last {
        None => offset_delta as int,
        Some(last) => last + offset_delta + 1,
    }
}

/// The `remaining` frames that start at `offset`, entered at their offsets
/// in the code behind those entered so far.
pub open spec fn spec_frames_from(
    pool: Pool,
    labels: Labels,
    frames: Seq<Option<FrameView>>,
    offset: int,
    compressed: bool,
    remaining: int,
    last: Option<usize>,
) -> ClassFileResult<(Labels, Seq<Option<FrameView>>)>
    decreases remaining,
{
    if remaining <= 0 {
        Ok((labels, frames))
    } else {
        match spec_frame(pool, labels, offset, compressed) {
            Err(e) => Err(e),
            Ok(found) => {
                let code_offset = spec_frame_offset(last, found.offset_delta);
                if code_offset >= frames.len() {
                    Err(
                        ClassFileError::CodeOffsetOutOfBounds {
                            index: code_offset as usize,
                            len: frames.len() as usize,
                        },
                    )
                } else {
                    spec_frames_from(
                        pool,
                        found.labels,
                        frames.update(code_offset, Some(found.frame)),
                        found.end,
                        compressed,
                        remaining - 1,
                        Some(code_offset as usize),
                    )
                }
            },
        }
    }
}

/// The frames of the table whose payload starts at `offset`, entered at
/// their offsets in the code.
pub open spec fn spec_frames(
    pool: Pool,
    labels: Labels,
    frames: Seq<Option<FrameView>>,
    offset: int,
    compressed: bool,
) -> ClassFileResult<(Labels, Seq<Option<FrameView>>)> {
    match spec_read_u16(pool.data, offset) {
        Err(e) => Err(e),
        Ok(count) => spec_frames_from(pool, labels, frames, offset + 2, compressed, count as int, None),
    }
}

/// Decodes the verification type that starts at `offset`.
pub(crate) fn read_frame_value(pool: &ConstantPool, offset: usize, labels: &mut LabelTable) -> (r: ClassFileResult<
    (FrameValue, usize),
>)
    requires
        labels_wf(old(labels)@),
    ensures
        labels_wf(final(labels)@),
        extends(old(labels)@, final(labels)@),
        match spec_frame_value(pool@, old(labels)@, offset as int) {
            Ok(found) => r is Ok && r->Ok_0.0.deep_view() == found.0 && final(labels)@ == found.1
                && r->Ok_0.1 == found.2,
            Err(e) => r == Err::<(FrameValue, usize), ClassFileError>(e),
        },
        r is Ok ==> r->Ok_0.1 <= pool@.data.len() <= usize::MAX,
{
    let buffer = pool.buffer();
    let tag: u8 = buffer.read_u8(offset)?;
    match tag {
        0 => Ok((FrameValue::Top, offset + 1)),
        1 => Ok((FrameValue::Integer, offset + 1)),
        2 => Ok((FrameValue::Float, offset + 1)),
        3 => Ok((FrameValue::Double, offset + 1)),
        4 => Ok((FrameValue::Long, offset + 1)),
        5 => Ok((FrameValue::Null, offset + 1)),
        6 => Ok((FrameValue::UninitializedThis, offset + 1)),
        7 => {
            let ty = pool.name_at(offset + 1, ConstantPoolTag::Class)?;
            Ok((FrameValue::Class(ty), offset + 3))
        },
        8 => {
            let pc: u16 = buffer.read_u16(offset + 1)?;
            let label = labels.get_or_create_label(pc as usize)?;
            Ok((FrameValue::Uninitialized(label), offset + 3))
        },
        _ => Err(ClassFileError::BadFrameValueTag(tag)),
    }
}

/// Decodes the `count` verification types that start at `offset`.
fn read_frame_values(pool: &ConstantPool, offset: usize, count: u16, labels: &mut LabelTable) -> (r:
    ClassFileResult<(Vec<FrameValue>, usize)>)
    requires
        labels_wf(old(labels)@),
        offset <= pool@.data.len() <= usize::MAX,
    ensures
        labels_wf(final(labels)@),
        extends(old(labels)@, final(labels)@),
        match spec_frame_values_from(pool@, old(labels)@, offset as int, count as int, Seq::empty()) {
            Ok(found) => r is Ok && r->Ok_0.0.deep_view() == found.0 && final(labels)@ == found.1
                && r->Ok_0.1 == found.2,
            Err(e) => r == Err::<(Vec<FrameValue>, usize), ClassFileError>(e),
        },
        r is Ok ==> r->Ok_0.1 <= pool@.data.len() <= usize::MAX,
{
    let mut values: Vec<FrameValue> = Vec::new();
    let mut at: usize = offset;
    let mut i: u16 = 0;
    assert(values.deep_view() =~= Seq::empty());
    while i < count
        invariant
            i <= count,
            at <= pool@.data.len() <= usize::MAX,
            labels_wf(labels@),
            extends(old(labels)@, labels@),
            spec_frame_values_from(pool@, old(labels)@, offset as int, count as int, Seq::empty())
                == spec_frame_values_from(pool@, labels@, at as int, count - i, values.deep_view()),
        decreases count - i,
    {
        let (value, end) = read_frame_value(pool, at, labels)?;
        let ghost before = values.deep_view();
        let ghost added = value.deep_view();
        values.push(value);
        assert(values.deep_view() =~= before.push(added));
        at = end;
        i = i + 1;
    }
    Ok((values, at))
}

/// Decodes the frame of type `frame_type` whose body starts at `at`, and
/// gives its distance, the frame and the offset behind it.
fn read_frame_body(pool: &ConstantPool, frame_type: u8, at: usize, labels: &mut LabelTable) -> (r:
    ClassFileResult<(u16, Frame, usize)>)
    requires
        labels_wf(old(labels)@),
        at <= pool@.data.len() <= usize::MAX,
    ensures
        labels_wf(final(labels)@),
        extends(old(labels)@, final(labels)@),
        match spec_frame_body(pool@, old(labels)@, frame_type, at as int) {
            Ok(found) => r is Ok && r->Ok_0.0 == found.offset_delta && r->Ok_0.1.deep_view() == found.frame
                && final(labels)@ == found.labels && r->Ok_0.2 == found.end,
            Err(e) => r == Err::<(u16, Frame, usize), ClassFileError>(e),
        },
        r is Ok ==> r->Ok_0.2 <= pool@.data.len() <= usize::MAX,
{
    reveal(spec_frame_body);
    let buffer = pool.buffer();
    if frame_type <= 63 {
        return Ok((frame_type as u16, Frame::Same, at));
    }
    if frame_type <= 127 {
        let (stack_value, end) = read_frame_value(pool, at, labels)?;
        return Ok(((frame_type - 64) as u16, Frame::Same1 { stack_value }, end));
    }
    if frame_type < 247 {
        return Err(ClassFileError::BadFrameType(frame_type));
    }
    let offset_delta: u16 = buffer.read_u16(at)?;
    if frame_type == 247 {
        let (stack_value, end) = read_frame_value(pool, at + 2, labels)?;
        Ok((offset_delta, Frame::Same1 { stack_value }, end))
    } else if frame_type <= 250 {
        Ok((offset_delta, Frame::Chop { num_locals: 251 - frame_type }, at + 2))
    } else if frame_type == 251 {
        Ok((offset_delta, Frame::Same, at + 2))
    } else if frame_type <= 254 {
        let (locals, end) = read_frame_values(pool, at + 2, (frame_type - 251) as u16, labels)?;
        Ok((offset_delta, Frame::Append { locals }, end))
    } else {
        let local_count: u16 = buffer.read_u16(at + 2)?;
        let (locals, locals_end) = read_frame_values(pool, at + 4, local_count, labels)?;
        let stack_count: u16 = buffer.read_u16(locals_end)?;
        let (stack, end) = read_frame_values(pool, locals_end + 2, stack_count, labels)?;
        Ok((offset_delta, Frame::Full { locals, stack }, end))
    }
}

/// Decodes the frames of the table whose payload starts at `offset`, and
/// enters each at its offset in the code.
pub(crate) fn read_frames(
    pool: &ConstantPool,
    offset: usize,
    compressed: bool,
    labels: &mut LabelTable,
    frames: &mut Vec<Option<Frame>>,
) -> (r: ClassFileResult<()>)
    requires
        labels_wf(old(labels)@),
        old(frames)@.len() <= 0x1_0000,
    ensures
        labels_wf(final(labels)@),
        extends(old(labels)@, final(labels)@),
        final(frames)@.len() == old(frames)@.len(),
        match spec_frames(pool@, old(labels)@, old(frames).deep_view(), offset as int, compressed) {
            Ok(found) => r is Ok && final(labels)@ == found.0 && final(frames).deep_view() == found.1,
            Err(e) => r == Err::<(), ClassFileError>(e),
        },
{
    let buffer = pool.buffer();
    let frame_count: u16 = buffer.read_u16(offset)?;
    let mut at: usize = offset + 2;
    let mut last_code_offset: Option<usize> = None;
    let mut i: u16 = 0;
    while i < frame_count
        invariant
            i <= frame_count,
            buffer@ == pool@.data,
            at <= pool@.data.len() <= usize::MAX,
            frames@.len() == old(frames)@.len(),
            frames@.len() <= 0x1_0000,
            last_code_offset is Some ==> last_code_offset->Some_0 < frames@.len(),
            labels_wf(labels@),
            extends(old(labels)@, labels@),
            spec_frames(pool@, old(labels)@, old(frames).deep_view(), offset as int, compressed)
                == spec_frames_from(
                pool@,
                labels@,
                frames.deep_view(),
                at as int,
                compressed,
                frame_count - i,
                last_code_offset,
            ),
        decreases frame_count - i,
    {
        let (frame_type, body): (u8, usize) = if compressed {
            (buffer.read_u8(at)?, at + 1)
        } else {
            (255u8, at)
        };
        let (offset_delta, frame, end) = read_frame_body(pool, frame_type, body, labels)?;
        let code_offset: usize = match last_code_offset {
            None => offset_delta as usize,
            Some(last) => last + offset_delta as usize + 1,
        };
        if code_offset >= frames.len() {
            return Err(ClassFileError::CodeOffsetOutOfBounds { index: code_offset, len: frames.len() });
        }
        let ghost before = frames.deep_view();
        let ghost added = frame.deep_view();
        frames[code_offset] = Some(frame);
        assert(frames.deep_view() =~= before.update(code_offset as int, Some(added)));
        last_code_offset = Some(code_offset);
        at = end;
        i = i + 1;
    }
    Ok(())
}

/// What decoding the code of a method gives.
#[derive(Debug)]
pub struct CodeData<'reader, 'class> {
    pub max_stack: u16,
    pub max_locals: u16,
    /// The labels of the places of the code.
    pub labels: LabelTable,
    /// For each offset of the code the instruction that starts there, until
    /// it is yielded.
    pub insns: Vec<Option<MethodEvent<'reader, 'class>>>,
    /// For each offset of the code the line that starts there.
    pub line_numbers: Vec<Option<u16>>,
    /// For each offset of the code the frame that holds there, until it is
    /// yielded.
    pub frames: Vec<Option<Frame>>,
    /// For each offset of the code the type annotations on the instruction
    /// there, until they are yielded.
    pub annotations: Vec<Vec<AnnotationEvent<TypeAnnotationNode>>>,
    pub try_catch_blocks: Vec<MethodTryCatchBlockEvent>,
    pub try_catch_block_annotations: Vec<MethodTryCatchBlockAnnotationEvent>,
    pub lvt: Vec<MethodLocalVariableEvent>,
    pub local_variable_annotations: Vec<MethodLocalVariableAnnotationEvent>,
    /// Where the attributes of the code start that the reader does not
    /// decode.
    pub custom_attribute_offsets: Vec<usize>,
}

pub struct CodeDataView<'reader, 'class> {
    pub max_stack: u16,
    pub max_locals: u16,
    pub labels: Labels,
    pub insns: Seq<Option<MethodEventView<'reader, 'class>>>,
    pub line_numbers: Seq<Option<u16>>,
    pub frames: Seq<Option<FrameView>>,
    pub annotations: Seq<Seq<AnnotationEventView<TypeAnnotationNodeView>>>,
    pub try_catch_blocks: Seq<MethodTryCatchBlockEventView>,
    pub try_catch_block_annotations: Seq<MethodTryCatchBlockAnnotationEventView>,
    pub lvt: Seq<MethodLocalVariableEventView>,
    pub local_variable_annotations: Seq<MethodLocalVariableAnnotationEventView>,
    pub custom_attribute_offsets: Seq<usize>,
}

impl<'reader, 'class> DeepView for CodeData<'reader, 'class> {
    type V = CodeDataView<'reader, 'class>;

    open spec fn deep_view(&self) -> CodeDataView<'reader, 'class> {
        CodeDataView {
            max_stack: self.max_stack,
            max_locals: self.max_locals,
            labels: self.labels@,
            insns: self.insns.deep_view(),
            line_numbers: self.line_numbers@,
            frames: self.frames.deep_view(),
            annotations: self.annotations.deep_view(),
            try_catch_blocks: self.try_catch_blocks.deep_view(),
            try_catch_block_annotations: self.try_catch_block_annotations.deep_view(),
            lvt: self.lvt.deep_view(),
            local_variable_annotations: self.local_variable_annotations.deep_view(),
            custom_attribute_offsets: self.custom_attribute_offsets@,
        }
    }
}

/// Whether the tables of a decoded code fit together: each of the tables
/// that go by offset has one entry for each offset of the code and one for
/// the offset behind it, and the labels are in order.
pub open spec fn code_wf<'reader, 'class>(code: CodeDataView<'reader, 'class>) -> bool {
    &&& labels_wf(code.labels)
    &&& code.insns.len() == code.labels.labels.len()
    &&& code.line_numbers.len() == code.labels.labels.len()
    &&& code.frames.len() == code.labels.labels.len()
    &&& code.annotations.len() == code.labels.labels.len()
}

/// The try-catch block that starts at `offset`: the offsets in the code of
/// its start, its end and its handler, and the slot of the class of the
/// exceptions that it takes, which may be zero. Start, end and handler get
/// their labels in this order.
pub open spec fn spec_try_catch(pool: Pool, labels: Labels, offset: int) -> ClassFileResult<
    (MethodTryCatchBlockEventView, Labels),
> {
    match spec_read_u16(pool.data, offset) {
        Err(e) => Err(e),
        Ok(start_pc) => match spec_read_u16(pool.data, offset + 2) {
            Err(e) => Err(e),
            Ok(end_pc) => match spec_read_u16(pool.data, offset + 4) {
                Err(e) => Err(e),
                Ok(handler_pc) => match spec_optional_name_at(pool, offset + 6, ConstantPoolTag::Class) {
                    Err(e) => Err(e),
                    Ok(ty) => match spec_label(labels, start_pc as usize) {
                        Err(e) => Err(e),
                        Ok(start) => match spec_label(start.1, end_pc as usize) {
                            Err(e) => Err(e),
                            Ok(end) => match spec_label(end.1, handler_pc as usize) {
                                Err(e) => Err(e),
                                Ok(handler) => Ok(
                                    (
                                        MethodTryCatchBlockEventView {
                                            start: start.0,
                                            end: end.0,
                                            handler: handler.0,
                                            ty,
                                        },
                                        handler.1,
                                    ),
                                ),
                            },
                        },
                    },
                },
            },
        },
    }
}

/// The code with the `remaining` try-catch blocks taken in that start at
/// `offset`, and the offset behind them. Each block has eight bytes.
pub open spec fn spec_try_catch_from<'reader, 'class>(
    pool: Pool,
    code: CodeDataView<'reader, 'class>,
    offset: int,
    remaining: int,
) -> ClassFileResult<(CodeDataView<'reader, 'class>, int)>
    decreases remaining,
{
    if remaining <= 0 {
        Ok((code, offset))
    } else {
        match spec_try_catch(pool, code.labels, offset) {
            Err(e) => Err(e),
            Ok(block) => spec_try_catch_from(
                pool,
                CodeDataView {
                    labels: block.1,
                    try_catch_blocks: code.try_catch_blocks.push(block.0),
                    ..code
                },
                offset + 8,
                remaining - 1,
            ),
        }
    }
}

/// The code with the table of try-catch blocks taken in that starts at
/// `offset`: the number of blocks, then the blocks.
pub open spec fn spec_try_catch_table<'reader, 'class>(
    pool: Pool,
    code: CodeDataView<'reader, 'class>,
    offset: int,
) -> ClassFileResult<(CodeDataView<'reader, 'class>, int)> {
    match spec_read_u16(pool.data, offset) {
        Err(e) => Err(e),
        Ok(count) => spec_try_catch_from(pool, code, offset + 2, count as int),
    }
}

/// The code with the entries of a table of line numbers taken in from the
/// entry with index `k` on. Each entry has four bytes: an offset in the
/// code, which gets a label, and the line that starts there.
pub open spec fn spec_line_numbers_from<'reader, 'class>(
    data: Seq<u8>,
    code: CodeDataView<'reader, 'class>,
    payload: int,
    k: int,
    count: int,
) -> ClassFileResult<CodeDataView<'reader, 'class>>
    decreases count - k,
{
    if k >= count {
        Ok(code)
    } else {
        match spec_read_u16(data, payload + 2 + 4 * k) {
            Err(e) => Err(e),
            Ok(start_pc) => match spec_read_u16(data, payload + 4 + 4 * k) {
                Err(e) => Err(e),
                Ok(line) => match spec_label(code.labels, start_pc as usize) {
                    Err(e) => Err(e),
                    Ok(label) => spec_line_numbers_from(
                        data,
                        CodeDataView {
                            labels: label.1,
                            line_numbers: code.line_numbers.update(start_pc as int, Some(line)),
                            ..code
                        },
                        payload,
                        k + 1,
                        count,
                    ),
                },
            },
        }
    }
}

/// The code with the table of line numbers taken in whose payload starts at
/// `payload`.
pub open spec fn spec_line_numbers<'reader, 'class>(
    data: Seq<u8>,
    code: CodeDataView<'reader, 'class>,
    payload: int,
) -> ClassFileResult<CodeDataView<'reader, 'class>> {
    match spec_read_u16(data, payload) {
        Err(e) => Err(e),
        Ok(count) => spec_line_numbers_from(data, code, payload, 0, count as int),
    }
}

/// The local variable whose entry starts at `at`: the offset in the code
/// where it starts to live and the length of that stretch, the slots of its
/// name and of its descriptor, and its index. The start and the end of the
/// stretch get their labels in this order.
pub open spec fn spec_local_variable(pool: Pool, labels: Labels, at: int) -> ClassFileResult<
    (MethodLocalVariableEventView, Labels),
> {
    match spec_read_u16(pool.data, at) {
        Err(e) => Err(e),
        Ok(start_pc) => match spec_read_u16(pool.data, at + 2) {
            Err(e) => Err(e),
            Ok(length) => match spec_utf8_at(pool, at + 4) {
                Err(e) => Err(e),
                Ok(name) => match spec_utf8_at(pool, at + 6) {
                    Err(e) => Err(e),
                    Ok(desc) => match spec_read_u16(pool.data, at + 8) {
                        Err(e) => Err(e),
                        Ok(index) => match spec_label(labels, start_pc as usize) {
                            Err(e) => Err(e),
                            Ok(start) => match spec_label(start.1, (start_pc + length) as usize) {
                                Err(e) => Err(e),
                                Ok(end) => Ok(
                                    (
                                        MethodLocalVariableEventView {
                                            name,
                                            desc,
                                            signature: None,
                                            start: start.0,
                                            end: end.0,
                                            index,
                                        },
                                        end.1,
                                    ),
                                ),
                            },
                        },
                    },
                },
            },
        }
    }
}

/// The code with the entries of a table of local variables taken in from
/// the entry with index `k` on. Each entry has ten bytes.
pub open spec fn spec_local_variables_from<'reader, 'class>(
    pool: Pool,
    code: CodeDataView<'reader, 'class>,
    payload: int,
    k: int,
    count: int,
) -> ClassFileResult<CodeDataView<'reader, 'class>>
    decreases count - k,
{
    if k >= count {
        Ok(code)
    } else {
        match spec_local_variable(pool, code.labels, payload + 2 + 10 * k) {
            Err(e) => Err(e),
            Ok(variable) => spec_local_variables_from(
                pool,
                CodeDataView { labels: variable.1, lvt: code.lvt.push(variable.0), ..code },
                payload,
                k + 1,
                count,
            ),
        }
    }
}

/// The code with the table of local variables taken in whose payload starts
/// at `payload`.
pub open spec fn spec_local_variables<'reader, 'class>(
    pool: Pool,
    code: CodeDataView<'reader, 'class>,
    payload: int,
) -> ClassFileResult<CodeDataView<'reader, 'class>> {
    match spec_read_u16(pool.data, payload) {
        Err(e) => Err(e),
        Ok(count) => spec_local_variables_from(pool, code, payload, 0, count as int),
    }
}

/// The index of the first local variable from index `from` on that starts at
/// `start` and has the index `index`, if there is one.
pub open spec fn spec_find_variable(
    lvt: Seq<MethodLocalVariableEventView>,
    start: Label,
    index: u16,
    from: int,
) -> Option<int>
    decreases lvt.len() - from,
{
    if from >= lvt.len() || from < 0 {
        None
    } else if lvt[from].start == start && lvt[from].index == index {
        Some(from)
    } else {
        spec_find_variable(lvt, start, index, from + 1)
    }
}

/// The local variables with the signature entered that the entry of a table
/// of local variable types at `at` gives: the first variable that starts at
/// the entry's offset, if that has a label, and has the entry's index gets
/// the signature.
pub open spec fn spec_variable_type(
    pool: Pool,
    labels: Labels,
    lvt: Seq<MethodLocalVariableEventView>,
    at: int,
) -> ClassFileResult<Seq<MethodLocalVariableEventView>> {
    match spec_read_u16(pool.data, at) {
        Err(e) => Err(e),
        Ok(start_pc) => match spec_utf8_at(pool, at + 6) {
            Err(e) => Err(e),
            Ok(signature) => match spec_read_u16(pool.data, at + 8) {
                Err(e) => Err(e),
                Ok(index) => if start_pc >= labels.labels.len() {
                    Err(
                        ClassFileError::CodeOffsetOutOfBounds {
                            index: start_pc as usize,
                            len: labels.labels.len() as usize,
                        },
                    )
                } else {
                    match labels.labels[start_pc as int] {
                        None => Ok(lvt),
                        Some(start) => match spec_find_variable(lvt, start, index, 0) {
                            None => Ok(lvt),
                            Some(found) => Ok(
                                lvt.update(
                                    found,
                                    MethodLocalVariableEventView {
                                        signature: Some(signature),
                                        ..lvt[found]
                                    },
                                ),
                            ),
                        },
                    }
                },
            },
        },
    }
}

/// The local variables with the entries of a table of local variable types
/// taken in from the entry with index `k` on. Each entry has ten bytes.
pub open spec fn spec_variable_types_from(
    pool: Pool,
    labels: Labels,
    lvt: Seq<MethodLocalVariableEventView>,
    payload: int,
    k: int,
    count: int,
) -> ClassFileResult<Seq<MethodLocalVariableEventView>>
    decreases count - k,
{
    if k >= count {
        Ok(lvt)
    } else {
        match spec_variable_type(pool, labels, lvt, payload + 2 + 10 * k) {
            Err(e) => Err(e),
            Ok(next) => spec_variable_types_from(pool, labels, next, payload, k + 1, count),
        }
    }
}

/// The local variables with the table of local variable types taken in
/// whose payload starts at `payload`.
pub open spec fn spec_variable_types(
    pool: Pool,
    labels: Labels,
    lvt: Seq<MethodLocalVariableEventView>,
    payload: int,
) -> ClassFileResult<Seq<MethodLocalVariableEventView>> {
    match spec_read_u16(pool.data, payload) {
        Err(e) => Err(e),
        Ok(count) => spec_variable_types_from(pool, labels, lvt, payload, 0, count as int),
    }
}

impl<'reader, 'class> CodeData<'reader, 'class> {
    /// Takes in the table of try-catch blocks that starts at `offset`, and
    /// gives the offset behind it.
    fn read_try_catch_blocks(&mut self, pool: &ConstantPool, offset: usize) -> (r: ClassFileResult<usize>)
        requires
            code_wf(old(self).deep_view()),
        ensures
            code_wf(final(self).deep_view()),
            extends(old(self).labels@, final(self).labels@),
            match spec_try_catch_table(pool@, old(self).deep_view(), offset as int) {
                Ok(found) => r is Ok && final(self).deep_view() == found.0 && r->Ok_0 == found.1,
                Err(e) => r == Err::<usize, ClassFileError>(e),
            },
            r is Ok ==> r->Ok_0 <= pool@.data.len() <= usize::MAX,
            final(self).deep_view() == (CodeDataView {
                labels: final(self).labels@,
                try_catch_blocks: final(self).try_catch_blocks.deep_view(),
                ..old(self).deep_view()
            }),
    {
        let buffer = pool.buffer();
        let count: u16 = buffer.read_u16(offset)?;
        let mut at: usize = offset + 2;
        let mut i: u16 = 0;
        while i < count
            invariant
                i <= count,
                buffer@ == pool@.data,
                at <= pool@.data.len() <= usize::MAX,
                code_wf(self.deep_view()),
                extends(old(self).labels@, self.labels@),
                self.deep_view() == (CodeDataView {
                    labels: self.labels@,
                    try_catch_blocks: self.try_catch_blocks.deep_view(),
                    ..old(self).deep_view()
                }),
                spec_try_catch_table(pool@, old(self).deep_view(), offset as int) == spec_try_catch_from(
                    pool@,
                    self.deep_view(),
                    at as int,
                    count - i,
                ),
            decreases count - i,
        {
            let start_pc: u16 = buffer.read_u16(at)?;
            let end_pc: u16 = buffer.read_u16(at + 2)?;
            let handler_pc: u16 = buffer.read_u16(at + 4)?;
            let ty = pool.optional_name_at(at + 6, ConstantPoolTag::Class)?;
            let start = self.labels.get_or_create_label(start_pc as usize)?;
            let end = self.labels.get_or_create_label(end_pc as usize)?;
            let handler = self.labels.get_or_create_label(handler_pc as usize)?;
            let ghost before = self.try_catch_blocks.deep_view();
            let block = MethodTryCatchBlockEvent { start, end, handler, ty };
            let ghost added = block.deep_view();
            self.try_catch_blocks.push(block);
            assert(self.try_catch_blocks.deep_view() =~= before.push(added));
            at = at + 8;
            i = i + 1;
        }
        Ok(at)
    }

    /// Takes in the table of line numbers whose payload starts at `payload`.
    fn read_line_numbers(&mut self, pool: &ConstantPool, payload: usize) -> (r: ClassFileResult<()>)
        requires
            code_wf(old(self).deep_view()),
        ensures
            code_wf(final(self).deep_view()),
            extends(old(self).labels@, final(self).labels@),
            match spec_line_numbers(pool@.data, old(self).deep_view(), payload as int) {
                Ok(found) => r is Ok && final(self).deep_view() == found,
                Err(e) => r == Err::<(), ClassFileError>(e),
            },
            final(self).deep_view() == (CodeDataView {
                labels: final(self).labels@,
                line_numbers: final(self).line_numbers@,
                ..old(self).deep_view()
            }),
    {
        let buffer = pool.buffer();
        let count: u16 = buffer.read_u16(payload)?;
        let mut i: u16 = 0;
        while i < count
            invariant
                i <= count,
                buffer@ == pool@.data,
                payload + 2 <= pool@.data.len() <= usize::MAX,
                code_wf(self.deep_view()),
                extends(old(self).labels@, self.labels@),
                self.deep_view() == (CodeDataView {
                    labels: self.labels@,
                    line_numbers: self.line_numbers@,
                    ..old(self).deep_view()
                }),
                spec_line_numbers(pool@.data, old(self).deep_view(), payload as int)
                    == spec_line_numbers_from(
                    pool@.data,
                    self.deep_view(),
                    payload as int,
                    i as int,
                    count as int,
                ),
            decreases count - i,
        {
            let at: usize = buffer.advance(payload, 2 + 4 * (i as usize));
            let start_pc: u16 = buffer.read_u16(at)?;
            let line_number: u16 = buffer.read_u16(at + 2)?;
            self.labels.get_or_create_label(start_pc as usize)?;
            self.line_numbers[start_pc as usize] = Some(line_number);
            i = i + 1;
        }
        Ok(())
    }

    /// Takes in the table of local variables whose payload starts at
    /// `payload`.
    fn read_local_variables(&mut self, pool: &ConstantPool, payload: usize) -> (r: ClassFileResult<()>)
        requires
            code_wf(old(self).deep_view()),
        ensures
            code_wf(final(self).deep_view()),
            extends(old(self).labels@, final(self).labels@),
            match spec_local_variables(pool@, old(self).deep_view(), payload as int) {
                Ok(found) => r is Ok && final(self).deep_view() == found,
                Err(e) => r == Err::<(), ClassFileError>(e),
            },
            final(self).deep_view() == (CodeDataView {
                labels: final(self).labels@,
                lvt: final(self).lvt.deep_view(),
                ..old(self).deep_view()
            }),
    {
        let buffer = pool.buffer();
        let count: u16 = buffer.read_u16(payload)?;
        let mut i: u16 = 0;
        while i < count
            invariant
                i <= count,
                buffer@ == pool@.data,
                payload + 2 <= pool@.data.len() <= usize::MAX,
                code_wf(self.deep_view()),
                extends(old(self).labels@, self.labels@),
                self.deep_view() == (CodeDataView {
                    labels: self.labels@,
                    lvt: self.lvt.deep_view(),
                    ..old(self).deep_view()
                }),
                spec_local_variables(pool@, old(self).deep_view(), payload as int)
                    == spec_local_variables_from(
                    pool@,
                    self.deep_view(),
                    payload as int,
                    i as int,
                    count as int,
                ),
            decreases count - i,
        {
            let at: usize = buffer.advance(payload, 2 + 10 * (i as usize));
            let start_pc: u16 = buffer.read_u16(at)?;
            let length: u16 = buffer.read_u16(at + 2)?;
            let name = pool.utf8_at(at + 4)?;
            let desc = pool.utf8_at(at + 6)?;
            let index: u16 = buffer.read_u16(at + 8)?;
            let start = self.labels.get_or_create_label(start_pc as usize)?;
            let end = self.labels.get_or_create_label(start_pc as usize + length as usize)?;
            let ghost before = self.lvt.deep_view();
            let variable = MethodLocalVariableEvent { start, end, name, desc, signature: None, index };
            let ghost added = variable.deep_view();
            self.lvt.push(variable);
            assert(self.lvt.deep_view() =~= before.push(added));
            i = i + 1;
        }
        Ok(())
    }

    /// The index of the first local variable from index `from` on that
    /// starts at `start` and has the index `index`, if there is one.
    fn find_variable(&self, start: Label, index: u16) -> (r: Option<usize>)
        ensures
            r is None ==> spec_find_variable(self.lvt.deep_view(), start, index, 0) is None,
            r is Some ==> spec_find_variable(self.lvt.deep_view(), start, index, 0) == Some(r->Some_0 as int)
                && r->Some_0 < self.lvt@.len(),
    {
        let mut k: usize = 0;
        while k < self.lvt.len()
            invariant
                k <= self.lvt@.len(),
                spec_find_variable(self.lvt.deep_view(), start, index, 0) == spec_find_variable(
                    self.lvt.deep_view(),
                    start,
                    index,
                    k as int,
                ),
            decreases self.lvt@.len() - k,
        {
            if self.lvt[k].start == start && self.lvt[k].index == index {
                return Some(k);
            }
            k = k + 1;
        }
        None
    }

    /// Takes in the table of local variable types whose payload starts at
    /// `payload`: it gives signatures to the local variables.
    fn read_local_variable_types(&mut self, pool: &ConstantPool, payload: usize) -> (r: ClassFileResult<()>)
        requires
            code_wf(old(self).deep_view()),
        ensures
            code_wf(final(self).deep_view()),
            match spec_variable_types(pool@, old(self).labels@, old(self).lvt.deep_view(), payload as int) {
                Ok(found) => r is Ok && final(self).lvt.deep_view() == found,
                Err(e) => r == Err::<(), ClassFileError>(e),
            },
            final(self).deep_view() == (CodeDataView {
                lvt: final(self).lvt.deep_view(),
                ..old(self).deep_view()
            }),
    {
        let buffer = pool.buffer();
        let count: u16 = buffer.read_u16(payload)?;
        let mut i: u16 = 0;
        while i < count
            invariant
                i <= count,
                buffer@ == pool@.data,
                payload + 2 <= pool@.data.len() <= usize::MAX,
                code_wf(self.deep_view()),
                self.deep_view() == (CodeDataView { lvt: self.lvt.deep_view(), ..old(self).deep_view() }),
                spec_variable_types(pool@, old(self).labels@, old(self).lvt.deep_view(), payload as int)
                    == spec_variable_types_from(
                    pool@,
                    self.labels@,
                    self.lvt.deep_view(),
                    payload as int,
                    i as int,
                    count as int,
                ),
            decreases count - i,
        {
            let at: usize = buffer.advance(payload, 2 + 10 * (i as usize));
            let start_pc: u16 = buffer.read_u16(at)?;
            let signature = pool.utf8_at(buffer.advance(at, 6))?;
            let index: u16 = buffer.read_u16(at + 8)?;
            if start_pc as usize >= self.labels.len() {
                return Err(
                    ClassFileError::CodeOffsetOutOfBounds { index: start_pc as usize, len: self.labels.len() },
                );
            }
            match self.labels.get(start_pc as usize) {
                None => {},
                Some(start) => match self.find_variable(start, index) {
                    None => {},
                    Some(found) => {
                        let ghost before = self.lvt.deep_view();
                        let ghost text = signature@;
                        self.lvt[found].signature = Some(signature);
                        assert(self.lvt.deep_view() =~= before.update(
                            found as int,
                            MethodLocalVariableEventView { signature: Some(text), ..before[found as int] },
                        ));
                    },
                },
            }
            i = i + 1;
        }
        Ok(())
    }
}

/// The stretches of a local variable from the one with index `k` on, each
/// with the labels of its start and of its end, behind those found so far.
pub open spec fn spec_ranges_labels_from(
    labels: Labels,
    ranges: Seq<TypeAnnotationLocalVariableRange>,
    k: int,
    found: Seq<(Label, Label, u16)>,
) -> ClassFileResult<(Seq<(Label, Label, u16)>, Labels)>
    decreases ranges.len() - k,
{
    if k >= ranges.len() || k < 0 {
        Ok((found, labels))
    } else {
        match spec_label(labels, ranges[k].start_pc as usize) {
            Err(e) => Err(e),
            Ok(start) => match spec_label(start.1, (ranges[k].start_pc + ranges[k].length) as usize) {
                Err(e) => Err(e),
                Ok(end) => spec_ranges_labels_from(
                    end.1,
                    ranges,
                    k + 1,
                    found.push((start.0, end.0, ranges[k].index)),
                ),
            },
        }
    }
}

/// The code with one type annotation taken in, which belongs to the place
/// `location`: an annotation on an instruction goes to the offset of the
/// instruction, one on a local variable or on a try-catch block to the list
/// of its kind, and one that names no place in code goes nowhere.
pub open spec fn spec_place_annotation<'reader, 'class>(
    code: CodeDataView<'reader, 'class>,
    visible: bool,
    annotation: TypeAnnotationNodeView,
    location: TypeAnnotationCodeLocationView,
) -> ClassFileResult<CodeDataView<'reader, 'class>> {
    match location {
        TypeAnnotationCodeLocationView::NotInCode => Ok(code),
        TypeAnnotationCodeLocationView::Insn(pc) => if pc >= code.annotations.len() {
            Err(
                ClassFileError::CodeOffsetOutOfBounds {
                    index: pc as usize,
                    len: code.annotations.len() as usize,
                },
            )
        } else {
            Ok(
                CodeDataView {
                    annotations: code.annotations.update(
                        pc as int,
                        code.annotations[pc as int].push(AnnotationEventView { visible, annotation }),
                    ),
                    ..code
                },
            )
        },
        TypeAnnotationCodeLocationView::LocalVariable(ranges) => match spec_ranges_labels_from(
            code.labels,
            ranges,
            0,
            Seq::empty(),
        ) {
            Err(e) => Err(e),
            Ok(found) => Ok(
                CodeDataView {
                    labels: found.1,
                    local_variable_annotations: code.local_variable_annotations.push(
                        MethodLocalVariableAnnotationEventView { ranges: found.0, visible, annotation },
                    ),
                    ..code
                },
            ),
        },
        TypeAnnotationCodeLocationView::TryCatchBlock(index) => Ok(
            CodeDataView {
                try_catch_block_annotations: code.try_catch_block_annotations.push(
                    MethodTryCatchBlockAnnotationEventView { try_catch_block_index: index, annotation },
                ),
                ..code
            },
        ),
    }
}

/// The code with the `remaining` type annotations taken in that start at
/// `offset`.
pub open spec fn spec_code_annotations_from<'reader, 'class>(
    pool: Pool,
    code: CodeDataView<'reader, 'class>,
    visible: bool,
    offset: int,
    remaining: int,
) -> ClassFileResult<CodeDataView<'reader, 'class>>
    decreases remaining,
{
    if remaining <= 0 {
        Ok(code)
    } else {
        match spec_type_annotation(pool, offset) {
            Err(e) => Err(e),
            Ok(found) => match spec_place_annotation(code, visible, found.0.0, found.0.1) {
                Err(e) => Err(e),
                Ok(next) => spec_code_annotations_from(pool, next, visible, found.1, remaining - 1),
            },
        }
    }
}

/// The code with the list of type annotations taken in whose payload starts
/// at `offset`.
pub open spec fn spec_code_annotations<'reader, 'class>(
    pool: Pool,
    code: CodeDataView<'reader, 'class>,
    visible: bool,
    offset: int,
) -> ClassFileResult<CodeDataView<'reader, 'class>> {
    match spec_read_u16(pool.data, offset) {
        Err(e) => Err(e),
        Ok(count) => spec_code_annotations_from(pool, code, visible, offset + 2, count as int),
    }
}

/// What the scan of the attributes of a code keeps for later: where the
/// tables of local variable types start, and where the table of frames
/// starts and in which form it is.
#[derive(Debug)]
pub struct CodeScan {
    pub lvtt_offsets: Vec<usize>,
    pub stack_map_table_offset: usize,
    pub stack_map_compressed: bool,
}

pub struct CodeScanView {
    pub lvtt_offsets: Seq<usize>,
    pub stack_map_table_offset: usize,
    pub stack_map_compressed: bool,
}

impl DeepView for CodeScan {
    type V = CodeScanView;

    open spec fn deep_view(&self) -> CodeScanView {
        CodeScanView {
            lvtt_offsets: self.lvtt_offsets@,
            stack_map_table_offset: self.stack_map_table_offset,
            stack_map_compressed: self.stack_map_compressed,
        }
    }
}

/// The code and the scan with one more attribute taken in. Tables of line
/// numbers and of local variables are decoded unless debug information is
/// skipped; the two lists of type annotations are decoded; tables of local
/// variable types and of frames are kept for later; the start of any other
/// attribute is kept.
#[verifier::opaque]
pub open spec fn spec_code_attribute<'reader, 'class>(
    pool: Pool,
    skip_debug: bool,
    code: CodeDataView<'reader, 'class>,
    scan: CodeScanView,
    header: AttributeHeader,
) -> ClassFileResult<(CodeDataView<'reader, 'class>, CodeScanView)> {
    let payload = header.payload as int;
    match header.known {
        Some(KnownAttribute::LineNumberTable) => if skip_debug {
            Ok((code, scan))
        } else {
            match spec_line_numbers(pool.data, code, payload) {
                Err(e) => Err(e),
                Ok(next) => Ok((next, scan)),
            }
        },
        Some(KnownAttribute::LocalVariableTable) => if skip_debug {
            Ok((code, scan))
        } else {
            match spec_local_variables(pool, code, payload) {
                Err(e) => Err(e),
                Ok(next) => Ok((next, scan)),
            }
        },
        Some(KnownAttribute::LocalVariableTypeTable) => Ok(
            (code, CodeScanView { lvtt_offsets: scan.lvtt_offsets.push(header.payload), ..scan }),
        ),
        Some(KnownAttribute::StackMap) => Ok(
            (
                code,
                CodeScanView {
                    stack_map_table_offset: header.payload,
                    stack_map_compressed: false,
                    ..scan
                },
            ),
        ),
        Some(KnownAttribute::StackMapTable) => Ok(
            (code, CodeScanView { stack_map_table_offset: header.payload, ..scan }),
        ),
        Some(KnownAttribute::RuntimeInvisibleTypeAnnotations) => match spec_code_annotations(
            pool,
            code,
            false,
            payload,
        ) {
            Err(e) => Err(e),
            Ok(next) => Ok((next, scan)),
        },
        Some(KnownAttribute::RuntimeVisibleTypeAnnotations) => match spec_code_annotations(
            pool,
            code,
            true,
            payload,
        ) {
            Err(e) => Err(e),
            Ok(next) => Ok((next, scan)),
        },
        _ => Ok(
            (
                CodeDataView {
                    custom_attribute_offsets: code.custom_attribute_offsets.push(
                        (header.payload - 6) as usize,
                    ),
                    ..code
                },
                scan,
            ),
        ),
    }
}

/// The code and the scan with the `remaining` attributes taken in that
/// start at `offset`.
pub open spec fn spec_code_attributes_from<'reader, 'class>(
    pool: Pool,
    skip_debug: bool,
    code: CodeDataView<'reader, 'class>,
    scan: CodeScanView,
    offset: usize,
    remaining: int,
) -> ClassFileResult<(CodeDataView<'reader, 'class>, CodeScanView)>
    decreases remaining,
{
    if remaining <= 0 {
        Ok((code, scan))
    } else {
        match spec_attribute_header(pool, offset as int) {
            Err(e) => Err(e),
            Ok(header) => match spec_code_attribute(pool, skip_debug, code, scan, header) {
                Err(e) => Err(e),
                Ok(next) => spec_code_attributes_from(
                    pool,
                    skip_debug,
                    next.0,
                    next.1,
                    spec_advance(header.payload as int, header.length as int),
                    remaining - 1,
                ),
            },
        }
    }
}

/// The local variables with the tables of local variable types taken in
/// from the table with index `k` on.
pub open spec fn spec_all_variable_types_from(
    pool: Pool,
    labels: Labels,
    lvt: Seq<MethodLocalVariableEventView>,
    tables: Seq<usize>,
    k: int,
) -> ClassFileResult<Seq<MethodLocalVariableEventView>>
    decreases tables.len() - k,
{
    if k >= tables.len() || k < 0 {
        Ok(lvt)
    } else {
        match spec_variable_types(pool, labels, lvt, tables[k] as int) {
            Err(e) => Err(e),
            Ok(next) => spec_all_variable_types_from(pool, labels, next, tables, k + 1),
        }
    }
}

/// The code of a method before anything is decoded: `length` bytes of code
/// have a place for each offset and one behind the last, none with a label,
/// an instruction, a line, a frame or an annotation.
pub open spec fn spec_empty_code<'reader, 'class>(
    max_stack: u16,
    max_locals: u16,
    length: int,
    method: u16,
) -> CodeDataView<'reader, 'class> {
    CodeDataView {
        max_stack,
        max_locals,
        labels: Labels {
            labels: Seq::new((length + 1) as nat, |i: int| None),
            method,
            next: 0,
            creator: Some(LabelCreatorView { method, next: 0 }),
        },
        insns: Seq::new((length + 1) as nat, |i: int| None),
        line_numbers: Seq::new((length + 1) as nat, |i: int| None),
        frames: Seq::new((length + 1) as nat, |i: int| None),
        annotations: Seq::new((length + 1) as nat, |i: int| Seq::empty()),
        try_catch_blocks: Seq::empty(),
        try_catch_block_annotations: Seq::empty(),
        lvt: Seq::empty(),
        local_variable_annotations: Seq::empty(),
        custom_attribute_offsets: Seq::empty(),
    }
}

/// What is left to do behind the attributes of a code: the tables of local
/// variable types give their signatures, unless debug information is
/// skipped, and the table of frames is decoded, unless frames are skipped.
#[verifier::opaque]
pub open spec fn spec_finish_code<'reader, 'class>(
    pool: Pool,
    skip_debug: bool,
    skip_frames: bool,
    code: CodeDataView<'reader, 'class>,
    scan: CodeScanView,
) -> ClassFileResult<CodeDataView<'reader, 'class>> {
    match (if skip_debug {
        Ok(code.lvt)
    } else {
        spec_all_variable_types_from(pool, code.labels, code.lvt, scan.lvtt_offsets, 0)
    }) {
        Err(e) => Err(e),
        Ok(lvt) => if !skip_frames && scan.stack_map_table_offset != 0 {
            match spec_frames(
                pool,
                code.labels,
                code.frames,
                scan.stack_map_table_offset as int,
                scan.stack_map_compressed,
            ) {
                Err(e) => Err(e),
                Ok(found) => Ok(CodeDataView { lvt, labels: found.0, frames: found.1, ..code }),
            }
        } else {
            Ok(CodeDataView { lvt, ..code })
        },
    }
}

/// The code with the instructions taken in, then the table of try-catch
/// blocks, then the attributes, then what is left behind them.
#[verifier::opaque]
pub open spec fn spec_code_tables<'reader, 'class>(
    pool: Pool,
    skip_debug: bool,
    skip_frames: bool,
    table: ClassFileResult<Seq<BootstrapMethodView>>,
    code: Seq<u8>,
    empty: CodeDataView<'reader, 'class>,
    tables: int,
) -> ClassFileResult<CodeDataView<'reader, 'class>> {
    match spec_code_from(code, pool, table, 0, empty.labels, empty.insns) {
        Err(e) => Err(e),
        Ok(decoded) => match spec_try_catch_table(
            pool,
            CodeDataView { labels: decoded.0, insns: decoded.1, ..empty },
            tables,
        ) {
            Err(e) => Err(e),
            Ok(blocks) => match spec_read_u16(pool.data, blocks.1) {
                Err(e) => Err(e),
                Ok(count) => match spec_code_attributes_from(
                    pool,
                    skip_debug,
                    blocks.0,
                    CodeScanView {
                        lvtt_offsets: Seq::empty(),
                        stack_map_table_offset: 0,
                        stack_map_compressed: true,
                    },
                    (blocks.1 + 2) as usize,
                    count as int,
                ) {
                    Err(e) => Err(e),
                    Ok(scanned) => spec_finish_code(pool, skip_debug, skip_frames, scanned.0, scanned.1),
                },
            },
        },
    }
}

/// The decoded code of the `Code` attribute whose payload starts at
/// `offset`: the limits of the frame of the method, the length of the code
/// in four bytes, which must be from 1 to 65535, the code, the table of
/// try-catch blocks and the attributes of the code.
pub open spec fn spec_code_data<'reader, 'class>(
    pool: Pool,
    skip_debug: bool,
    skip_frames: bool,
    table: ClassFileResult<Seq<BootstrapMethodView>>,
    offset: int,
    method: u16,
) -> ClassFileResult<CodeDataView<'reader, 'class>> {
    match spec_read_u16(pool.data, offset) {
        Err(e) => Err(e),
        Ok(max_stack) => match spec_read_u16(pool.data, offset + 2) {
            Err(e) => Err(e),
            Ok(max_locals) => match spec_read_u32(pool.data, offset + 4) {
                Err(e) => Err(e),
                Ok(length) => if length == 0 || length > 65535 {
                    Err(ClassFileError::BadCodeSize(length))
                } else if offset + 8 + length > pool.data.len() {
                    Err(crate::buffer::out_of_bounds(pool.data.len() as int, offset + 8, length as int))
                } else {
                    spec_code_tables(
                        pool,
                        skip_debug,
                        skip_frames,
                        table,
                        pool.data.subrange(offset + 8, offset + 8 + length),
                        spec_empty_code(max_stack, max_locals, length as int, method),
                        offset + 8 + length,
                    )
                },
            },
        },
    }
}

impl<'reader, 'class> CodeData<'reader, 'class> {
    /// The labels of the starts and of the ends of the stretches `ranges`.
    fn ranges_labels(&mut self, ranges: &Vec<TypeAnnotationLocalVariableRange>) -> (r: ClassFileResult<
        Vec<(Label, Label, u16)>,
    >)
        requires
            code_wf(old(self).deep_view()),
        ensures
            code_wf(final(self).deep_view()),
            extends(old(self).labels@, final(self).labels@),
            final(self).deep_view() == (CodeDataView { labels: final(self).labels@, ..old(self).deep_view() }),
            match spec_ranges_labels_from(old(self).labels@, ranges@, 0, Seq::empty()) {
                Ok(found) => r is Ok && r->Ok_0@ == found.0 && final(self).labels@ == found.1,
                Err(e) => r == Err::<Vec<(Label, Label, u16)>, ClassFileError>(e),
            },
    {
        let mut found: Vec<(Label, Label, u16)> = Vec::new();
        let mut k: usize = 0;
        while k < ranges.len()
            invariant
                k <= ranges@.len(),
                code_wf(self.deep_view()),
                extends(old(self).labels@, self.labels@),
                self.deep_view() == (CodeDataView { labels: self.labels@, ..old(self).deep_view() }),
                spec_ranges_labels_from(old(self).labels@, ranges@, 0, Seq::empty())
                    == spec_ranges_labels_from(self.labels@, ranges@, k as int, found@),
            decreases ranges@.len() - k,
        {
            let range = ranges[k];
            let start = self.labels.get_or_create_label(range.start_pc as usize)?;
            let end = self.labels.get_or_create_label(range.start_pc as usize + range.length as usize)?;
            found.push((start, end, range.index));
            k = k + 1;
        }
        Ok(found)
    }

    /// Takes in one type annotation, which belongs to the place `location`.
    fn place_annotation(
        &mut self,
        visible: bool,
        annotation: TypeAnnotationNode,
        location: TypeAnnotationCodeLocation,
    ) -> (r: ClassFileResult<()>)
        requires
            code_wf(old(self).deep_view()),
        ensures
            code_wf(final(self).deep_view()),
            extends(old(self).labels@, final(self).labels@),
            match spec_place_annotation(
                old(self).deep_view(),
                visible,
                annotation.deep_view(),
                location.deep_view(),
            ) {
                Ok(found) => r is Ok && final(self).deep_view() == found,
                Err(e) => r == Err::<(), ClassFileError>(e),
            },
            final(self).deep_view() == (CodeDataView {
                labels: final(self).labels@,
                annotations: final(self).annotations.deep_view(),
                local_variable_annotations: final(self).local_variable_annotations.deep_view(),
                try_catch_block_annotations: final(self).try_catch_block_annotations.deep_view(),
                ..old(self).deep_view()
            }),
    {
        match location {
            TypeAnnotationCodeLocation::NotInCode => Ok(()),
            TypeAnnotationCodeLocation::Insn(pc) => {
                let len: usize = self.annotations.len();
                if pc as usize >= len {
                    return Err(ClassFileError::CodeOffsetOutOfBounds { index: pc as usize, len });
                }
                let ghost before = self.annotations.deep_view();
                let event = AnnotationEvent { visible, annotation };
                let ghost added = event.deep_view();
                self.annotations[pc as usize].push(event);
                proof {
                    assert(self.annotations@[pc as int].deep_view() =~= before[pc as int].push(added));
                    assert(self.annotations.deep_view() =~= before.update(
                        pc as int,
                        before[pc as int].push(added),
                    ));
                }
                Ok(())
            },
            TypeAnnotationCodeLocation::LocalVariable(ranges) => {
                let ranges = self.ranges_labels(&ranges)?;
                let ghost before = self.local_variable_annotations.deep_view();
                let event = MethodLocalVariableAnnotationEvent { ranges, visible, annotation };
                let ghost added = event.deep_view();
                self.local_variable_annotations.push(event);
                proof {
                    assert(added.ranges =~= ranges@);
                    assert(self.local_variable_annotations.deep_view() =~= before.push(added));
                }
                Ok(())
            },
            TypeAnnotationCodeLocation::TryCatchBlock(index) => {
                let ghost before = self.try_catch_block_annotations.deep_view();
                let event = MethodTryCatchBlockAnnotationEvent { try_catch_block_index: index, annotation };
                let ghost added = event.deep_view();
                self.try_catch_block_annotations.push(event);
                assert(self.try_catch_block_annotations.deep_view() =~= before.push(added));
                Ok(())
            },
        }
    }

    /// Takes in the list of type annotations whose payload starts at
    /// `offset`.
    fn read_code_annotations(&mut self, pool: &ConstantPool, offset: usize, visible: bool) -> (r:
        ClassFileResult<()>)
        requires
            code_wf(old(self).deep_view()),
        ensures
            code_wf(final(self).deep_view()),
            extends(old(self).labels@, final(self).labels@),
            match spec_code_annotations(pool@, old(self).deep_view(), visible, offset as int) {
                Ok(found) => r is Ok && final(self).deep_view() == found,
                Err(e) => r == Err::<(), ClassFileError>(e),
            },
            final(self).deep_view() == (CodeDataView {
                labels: final(self).labels@,
                annotations: final(self).annotations.deep_view(),
                local_variable_annotations: final(self).local_variable_annotations.deep_view(),
                try_catch_block_annotations: final(self).try_catch_block_annotations.deep_view(),
                ..old(self).deep_view()
            }),
    {
        let ann_count: u16 = pool.buffer().read_u16(offset)?;
        let mut ann_offset: usize = offset + 2;
        let mut i: u16 = 0;
        while i < ann_count
            invariant
                i <= ann_count,
                code_wf(self.deep_view()),
                extends(old(self).labels@, self.labels@),
                self.deep_view() == (CodeDataView {
                    labels: self.labels@,
                    annotations: self.annotations.deep_view(),
                    local_variable_annotations: self.local_variable_annotations.deep_view(),
                    try_catch_block_annotations: self.try_catch_block_annotations.deep_view(),
                    ..old(self).deep_view()
                }),
                spec_code_annotations(pool@, old(self).deep_view(), visible, offset as int)
                    == spec_code_annotations_from(
                    pool@,
                    self.deep_view(),
                    visible,
                    ann_offset as int,
                    ann_count - i,
                ),
            decreases ann_count - i,
        {
            let ((annotation, code_loc), end) = read_type_annotation(pool, ann_offset)?;
            self.place_annotation(visible, annotation, code_loc)?;
            ann_offset = end;
            i = i + 1;
        }
        Ok(())
    }

    /// Takes in one attribute of the code.
    fn read_attribute(&mut self, pool: &ConstantPool, skip_debug: bool, scan: &mut CodeScan, header: &AttributeHeader) -> (r:
        ClassFileResult<()>)
        requires
            code_wf(old(self).deep_view()),
            6 <= header.payload <= pool@.data.len() <= usize::MAX,
        ensures
            code_wf(final(self).deep_view()),
            extends(old(self).labels@, final(self).labels@),
            match spec_code_attribute(
                pool@,
                skip_debug,
                old(self).deep_view(),
                old(scan).deep_view(),
                *header,
            ) {
                Ok(found) => r is Ok && final(self).deep_view() == found.0 && final(scan).deep_view()
                    == found.1,
                Err(e) => r == Err::<(), ClassFileError>(e),
            },
            final(self).frames.deep_view() == old(self).frames.deep_view(),
            final(self).insns.deep_view() == old(self).insns.deep_view(),
            skip_debug ==> final(self).line_numbers@ == old(self).line_numbers@ && final(self).lvt.deep_view()
                == old(self).lvt.deep_view(),
    {
        reveal(spec_code_attribute);
        match header.known {
            Some(KnownAttribute::LineNumberTable) => {
                if !skip_debug {
                    self.read_line_numbers(pool, header.payload)?;
                }
            },
            Some(KnownAttribute::LocalVariableTable) => {
                if !skip_debug {
                    self.read_local_variables(pool, header.payload)?;
                }
            },
            Some(KnownAttribute::LocalVariableTypeTable) => {
                scan.lvtt_offsets.push(header.payload);
            },
            Some(KnownAttribute::StackMap) => {
                scan.stack_map_table_offset = header.payload;
                scan.stack_map_compressed = false;
            },
            Some(KnownAttribute::StackMapTable) => {
                scan.stack_map_table_offset = header.payload;
            },
            Some(KnownAttribute::RuntimeInvisibleTypeAnnotations) => {
                self.read_code_annotations(pool, header.payload, false)?;
            },
            Some(KnownAttribute::RuntimeVisibleTypeAnnotations) => {
                self.read_code_annotations(pool, header.payload, true)?;
            },
            _ => {
                self.custom_attribute_offsets.push(header.payload - 6);
            },
        }
        Ok(())
    }
}

/// The bytes of the code of the `Code` attribute whose payload starts at
/// `offset`.
pub open spec fn spec_code_bytes(data: Seq<u8>, offset: int) -> Seq<u8> {
    data.subrange(offset + 8, offset + 8 + be_u32(data, offset + 4))
}

/// A table of `places` entries without a value.
fn empty_table<T>(places: usize) -> (r: Vec<Option<T>>)
    ensures
        r@.len() == places,
        forall|i: int| 0 <= i < places ==> (#[trigger] r@[i]) is None,
{
    let mut table: Vec<Option<T>> = Vec::new();
    let mut i: usize = 0;
    while i < places
        invariant
            i <= places,
            table@.len() == i,
            forall|k: int| 0 <= k < i ==> (#[trigger] table@[k]) is None,
        decreases places - i,
    {
        table.push(None);
        i = i + 1;
    }
    table
}

/// A table of `places` empty lists.
fn empty_lists<T>(places: usize) -> (r: Vec<Vec<T>>)
    ensures
        r@.len() == places,
        forall|i: int| 0 <= i < places ==> (#[trigger] r@[i])@.len() == 0,
{
    let mut table: Vec<Vec<T>> = Vec::new();
    let mut i: usize = 0;
    while i < places
        invariant
            i <= places,
            table@.len() == i,
            forall|k: int| 0 <= k < i ==> (#[trigger] table@[k])@.len() == 0,
        decreases places - i,
    {
        table.push(Vec::new());
        i = i + 1;
    }
    table
}

impl<'reader, 'class> CodeData<'reader, 'class> {
    /// The code of `length` bytes before anything is decoded.
    fn empty(max_stack: u16, max_locals: u16, length: usize, method: u16) -> (r: Self)
        requires
            length <= 0xffff,
        ensures
            r.deep_view() == spec_empty_code::<'reader, 'class>(max_stack, max_locals, length as int, method),
            code_wf(r.deep_view()),
            r.insns@.len() == length + 1,
            r.lvt@.len() == 0,
            forall|j: int| 0 <= j < r.insns@.len() ==> (#[trigger] r.insns@[j]) is None,
            forall|j: int| 0 <= j < r.frames@.len() ==> (#[trigger] r.frames@[j]) is None,
            forall|j: int| 0 <= j < r.line_numbers@.len() ==> (#[trigger] r.line_numbers@[j]) is None,
    {
        let data = CodeData {
            max_stack,
            max_locals,
            labels: LabelTable::new(length + 1, method),
            insns: empty_table(length + 1),
            line_numbers: empty_table(length + 1),
            frames: empty_table(length + 1),
            annotations: empty_lists(length + 1),
            try_catch_blocks: Vec::new(),
            try_catch_block_annotations: Vec::new(),
            lvt: Vec::new(),
            local_variable_annotations: Vec::new(),
            custom_attribute_offsets: Vec::new(),
        };
        proof {
            let view = data.deep_view();
            let empty = spec_empty_code::<'reader, 'class>(max_stack, max_locals, length as int, method);
            assert(view.labels.labels =~= empty.labels.labels);
            assert(view.insns =~= empty.insns);
            assert(view.line_numbers =~= empty.line_numbers);
            assert(view.frames =~= empty.frames);
            assert forall|i: int| 0 <= i < view.annotations.len() implies view.annotations[i]
                == empty.annotations[i] by {
                assert(data.annotations@[i].deep_view() =~= Seq::empty());
            }
            assert(view.annotations =~= empty.annotations);
            assert(view.try_catch_blocks =~= empty.try_catch_blocks);
            assert(view.try_catch_block_annotations =~= empty.try_catch_block_annotations);
            assert(view.lvt =~= empty.lvt);
            assert(view.local_variable_annotations =~= empty.local_variable_annotations);
        }
        data
    }

    /// Takes in the tables of local variable types that start at `tables`.
    fn read_all_variable_types(&mut self, pool: &ConstantPool, tables: &Vec<usize>) -> (r: ClassFileResult<()>)
        requires
            code_wf(old(self).deep_view()),
        ensures
            code_wf(final(self).deep_view()),
            match spec_all_variable_types_from(
                pool@,
                old(self).labels@,
                old(self).lvt.deep_view(),
                tables@,
                0,
            ) {
                Ok(found) => r is Ok && final(self).lvt.deep_view() == found,
                Err(e) => r == Err::<(), ClassFileError>(e),
            },
            final(self).deep_view() == (CodeDataView {
                lvt: final(self).lvt.deep_view(),
                ..old(self).deep_view()
            }),
    {
        let mut k: usize = 0;
        while k < tables.len()
            invariant
                k <= tables@.len(),
                code_wf(self.deep_view()),
                self.deep_view() == (CodeDataView { lvt: self.lvt.deep_view(), ..old(self).deep_view() }),
                spec_all_variable_types_from(pool@, old(self).labels@, old(self).lvt.deep_view(), tables@, 0)
                    == spec_all_variable_types_from(
                    pool@,
                    self.labels@,
                    self.lvt.deep_view(),
                    tables@,
                    k as int,
                ),
            decreases tables@.len() - k,
        {
            self.read_local_variable_types(pool, tables[k])?;
            k = k + 1;
        }
        Ok(())
    }

    /// Takes in the `count` attributes of the code that start at `offset`,
    /// and gives what the scan keeps for later.
    fn read_attributes(&mut self, pool: &ConstantPool, skip_debug: bool, offset: usize, count: u16) -> (r:
        ClassFileResult<CodeScan>)
        requires
            code_wf(old(self).deep_view()),
        ensures
            code_wf(final(self).deep_view()),
            match spec_code_attributes_from(
                pool@,
                skip_debug,
                old(self).deep_view(),
                CodeScanView {
                    lvtt_offsets: Seq::empty(),
                    stack_map_table_offset: 0,
                    stack_map_compressed: true,
                },
                offset,
                count as int,
            ) {
                Ok(found) => r is Ok && final(self).deep_view() == found.0 && r->Ok_0.deep_view() == found.1,
                Err(e) => r == Err::<CodeScan, ClassFileError>(e),
            },
            extends(old(self).labels@, final(self).labels@),
            final(self).frames.deep_view() == old(self).frames.deep_view(),
            final(self).insns.deep_view() == old(self).insns.deep_view(),
            skip_debug ==> final(self).line_numbers@ == old(self).line_numbers@ && final(self).lvt.deep_view()
                == old(self).lvt.deep_view(),
    {
        let buffer = pool.buffer();
        let mut scan = CodeScan {
            lvtt_offsets: Vec::new(),
            stack_map_table_offset: 0,
            stack_map_compressed: true,
        };
        let ghost start = scan.deep_view();
        let mut at: usize = offset;
        let mut i: u16 = 0;
        while i < count
            invariant
                i <= count,
                buffer@ == pool@.data,
                code_wf(self.deep_view()),
                extends(old(self).labels@, self.labels@),
                self.frames.deep_view() == old(self).frames.deep_view(),
                self.insns.deep_view() == old(self).insns.deep_view(),
                skip_debug ==> self.line_numbers@ == old(self).line_numbers@ && self.lvt.deep_view() == old(
                    self,
                ).lvt.deep_view(),
                start == (CodeScanView {
                    lvtt_offsets: Seq::empty(),
                    stack_map_table_offset: 0,
                    stack_map_compressed: true,
                }),
                spec_code_attributes_from(pool@, skip_debug, old(self).deep_view(), start, offset, count as int)
                    == spec_code_attributes_from(
                    pool@,
                    skip_debug,
                    self.deep_view(),
                    scan.deep_view(),
                    at,
                    count - i,
                ),
            decreases count - i,
        {
            let header = read_attribute_header(pool, at)?;
            self.read_attribute(pool, skip_debug, &mut scan, &header)?;
            at = buffer.advance(header.payload, header.length as usize);
            i = i + 1;
        }
        Ok(scan)
    }

    /// Does what is left behind the attributes of the code.
    fn finish(&mut self, pool: &ConstantPool, skip_debug: bool, skip_frames: bool, scan: &CodeScan) -> (r:
        ClassFileResult<()>)
        requires
            code_wf(old(self).deep_view()),
        ensures
            code_wf(final(self).deep_view()),
            match spec_finish_code(pool@, skip_debug, skip_frames, old(self).deep_view(), scan.deep_view()) {
                Ok(found) => r is Ok && final(self).deep_view() == found,
                Err(e) => r == Err::<(), ClassFileError>(e),
            },
            extends(old(self).labels@, final(self).labels@),
            final(self).insns.deep_view() == old(self).insns.deep_view(),
            final(self).line_numbers@ == old(self).line_numbers@,
            skip_debug ==> final(self).lvt.deep_view() == old(self).lvt.deep_view(),
            skip_frames ==> final(self).frames.deep_view() == old(self).frames.deep_view(),
    {
        reveal(spec_finish_code);
        if !skip_debug {
            self.read_all_variable_types(pool, &scan.lvtt_offsets)?;
        }
        if !skip_frames && scan.stack_map_table_offset != 0 {
            read_frames(
                pool,
                scan.stack_map_table_offset,
                scan.stack_map_compressed,
                &mut self.labels,
                &mut self.frames,
            )?;
        }
        Ok(())
    }

    /// Takes in the instructions of `code` and the tables that follow the
    /// code at `tables`.
    fn read_tables(
        &mut self,
        pool: &ConstantPool,
        skip_debug: bool,
        skip_frames: bool,
        bootstrap_methods: &BootstrapMethods,
        code: &[u8],
        tables: usize,
    ) -> (r: ClassFileResult<()>)
        requires
            code_wf(old(self).deep_view()),
            code@.len() <= 0xffff,
            old(self).insns@.len() == code@.len() + 1,
            forall|j: int| 0 <= j < old(self).insns@.len() ==> (#[trigger] old(self).insns@[j]) is None,
            forall|j: int| 0 <= j < old(self).frames@.len() ==> (#[trigger] old(self).frames@[j]) is None,
            forall|j: int|
                0 <= j < old(self).line_numbers@.len() ==> (#[trigger] old(self).line_numbers@[j]) is None,
            old(self).lvt@.len() == 0,
        ensures
            code_wf(final(self).deep_view()),
            final(self).insns@.len() == old(self).insns@.len(),
            match spec_code_tables(
                pool@,
                skip_debug,
                skip_frames,
                bootstrap_methods.deep_view(),
                code@,
                old(self).deep_view(),
                tables as int,
            ) {
                Ok(found) => r is Ok && final(self).deep_view() == found,
                Err(e) => r == Err::<(), ClassFileError>(e),
            },
            r is Ok ==> forall|j: int|
                0 <= j < code@.len() ==> ((#[trigger] final(self).insns.deep_view()[j]) is Some
                    <==> spec_is_start(code@, j)),
            r is Ok && skip_debug ==> final(self).lvt@.len() == 0 && forall|j: int|
                0 <= j < final(self).line_numbers@.len() ==> (#[trigger] final(self).line_numbers@[j]) is None,
            r is Ok && skip_frames ==> forall|j: int|
                0 <= j < final(self).frames@.len() ==> (#[trigger] final(self).frames.deep_view()[j]) is None,
            r is Ok ==> spec_all_insns(final(self).insns.deep_view()),
            r is Ok ==> spec_all_targets_labelled(code@, final(self).insns.deep_view(), final(self).labels@),
            r is Ok ==> extends(old(self).labels@, final(self).labels@),
    {
        reveal(spec_code_tables);
        let ghost no_frames = self.frames.deep_view();
        proof {
            assert forall|j: int| 0 <= j < no_frames.len() implies (#[trigger] no_frames[j]) is None by {
                assert(self.frames@[j] is None);
            }
        }
        read_code(code, pool, bootstrap_methods, &mut self.labels, &mut self.insns)?;
        let ghost decoded = self.insns.deep_view();
        proof {
            assert forall|j: int| 0 <= j < code@.len() implies ((#[trigger] decoded[j]) is Some
                <==> spec_is_start(code@, j)) by {
                assert(self.insns@[j] is Some <==> spec_is_start(code@, j));
            }
        }
        let ghost known = self.labels@;
        let at: usize = self.read_try_catch_blocks(pool, tables)?;
        let attribute_count: u16 = pool.buffer().read_u16(at)?;
        let scan = self.read_attributes(pool, skip_debug, at + 2, attribute_count)?;
        self.finish(pool, skip_debug, skip_frames, &scan)?;
        proof {
            assert(self.insns.deep_view() == decoded);
            lemma_all_targets_stay_labelled(code@, decoded, known, self.labels@);
            if skip_debug {
                assert(self.lvt.deep_view().len() == 0);
            }
        }
        Ok(())
    }

    /// Decodes the code of the `Code` attribute whose payload starts at
    /// `offset`, for the method with index `method` among the methods of its
    /// class.
    ///
    /// In the decoded code an instruction stands at exactly those offsets at
    /// which one starts, the first at offset zero and each later one the
    /// encoded width of the instruction before it behind that one. No two
    /// places have the same label, every label is one of the method, and a
    /// jump or a switch names the label of the place that each of its
    /// branches leads to. The table of the labels holds their creator. A
    /// reader that skips debug information leaves the code without line
    /// numbers and without local variables; one that skips frames leaves it
    /// without frames.
    pub fn read(
        reader: &'reader ClassReader<'class>,
        offset: usize,
        bootstrap_methods: &BootstrapMethods,
        method: u16,
    ) -> (r: ClassFileResult<CodeData<'reader, 'class>>)
        ensures
            crate::error::deep(r) == spec_code_data::<'reader, 'class>(
                reader@.pool,
                reader@.flags.spec_contains(crate::access::ClassReaderFlags::SKIP_DEBUG),
                reader@.flags.spec_contains(crate::access::ClassReaderFlags::SKIP_FRAMES),
                bootstrap_methods.deep_view(),
                offset as int,
                method,
            ),
            r is Ok ==> code_wf(r->Ok_0.deep_view()),
            r is Ok ==> r->Ok_0.deep_view().labels.method == method,
            r is Ok ==> 2 <= r->Ok_0.insns@.len() <= 0x1_0000,
            r is Ok ==> forall|j: int|
                0 <= j < r->Ok_0.insns@.len() - 1 ==> ((#[trigger] r->Ok_0.insns.deep_view()[j]) is Some
                    <==> spec_is_start(spec_code_bytes(reader@.pool.data, offset as int), j)),
            r is Ok && reader@.flags.spec_contains(crate::access::ClassReaderFlags::SKIP_DEBUG) ==> r->Ok_0.lvt@.len()
                == 0 && forall|j: int|
                0 <= j < r->Ok_0.line_numbers@.len() ==> (#[trigger] r->Ok_0.line_numbers@[j]) is None,
            r is Ok && reader@.flags.spec_contains(crate::access::ClassReaderFlags::SKIP_FRAMES) ==> forall|
                j: int,
            |
                0 <= j < r->Ok_0.frames@.len() ==> (#[trigger] r->Ok_0.frames.deep_view()[j]) is None,
            r is Ok ==> spec_all_insns(r->Ok_0.insns.deep_view()),
            r is Ok ==> spec_all_targets_labelled(
                spec_code_bytes(reader@.pool.data, offset as int),
                r->Ok_0.insns.deep_view(),
                r->Ok_0.labels@,
            ),
    {
        let pool = reader.constant_pool();
        let buffer = pool.buffer();
        let skip_debug: bool = reader.flags().contains(crate::access::ClassReaderFlags::SKIP_DEBUG);
        let skip_frames: bool = reader.flags().contains(crate::access::ClassReaderFlags::SKIP_FRAMES);
        let max_stack: u16 = buffer.read_u16(offset)?;
        let max_locals: u16 = buffer.read_u16(offset + 2)?;
        let code_length: u32 = buffer.read_u32(offset + 4)?;
        if code_length == 0 || code_length > 65535 {
            return Err(ClassFileError::BadCodeSize(code_length));
        }
        let code = buffer.read_bytes(offset + 8, code_length as usize)?;
        let tables: usize = offset + 8 + code_length as usize;
        let mut data = CodeData::empty(max_stack, max_locals, code_length as usize, method);
        assert(code@ == spec_code_bytes(reader@.pool.data, offset as int));
        data.read_tables(pool, skip_debug, skip_frames, bootstrap_methods, code, tables)?;
        Ok(data)
    }
}

} // verus!
