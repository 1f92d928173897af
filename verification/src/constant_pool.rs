//! The constant pool: an index from slot numbers to entries, built in one
//! pass, and a typed accessor for every kind of entry.

use crate::buffer::{
    spec_read_i32, spec_read_i64, spec_read_u16, spec_read_u32, spec_read_u64, spec_read_u8,
    ClassBuffer,
};
use crate::error::{deep, ClassFileError, ClassFileResult};
use crate::handle::{spec_handle_kind, Handle, HandleKind, HandleView};
use crate::text::{spec_text, JavaText};
use vstd::prelude::*;

verus! {

/// The kind of a constant pool entry.
#[derive(Debug, Copy, Clone, PartialEq, Eq, Structural, PartialOrd, Ord, Hash)]
#[non_exhaustive]
pub enum ConstantPoolTag {
    Utf8,
    Integer,
    Float,
    Long,
    Double,
    Class,
    String,
    FieldRef,
    MethodRef,
    InterfaceMethodRef,
    NameAndType,
    MethodHandle,
    MethodType,
    Dynamic,
    InvokeDynamic,
    Module,
    Package,
}

/// The kind that a tag byte stands for.
pub open spec fn spec_tag(tag: u8) -> Option<ConstantPoolTag> {
    if tag == 1 {
        Some(ConstantPoolTag::Utf8)
    } else if tag == 3 {
        Some(ConstantPoolTag::Integer)
    } else if tag == 4 {
        Some(ConstantPoolTag::Float)
    } else if tag == 5 {
        Some(ConstantPoolTag::Long)
    } else if tag == 6 {
        Some(ConstantPoolTag::Double)
    } else if tag == 7 {
        Some(ConstantPoolTag::Class)
    } else if tag == 8 {
        Some(ConstantPoolTag::String)
    } else if tag == 9 {
        Some(ConstantPoolTag::FieldRef)
    } else if tag == 10 {
        Some(ConstantPoolTag::MethodRef)
    } else if tag == 11 {
        Some(ConstantPoolTag::InterfaceMethodRef)
    } else if tag == 12 {
        Some(ConstantPoolTag::NameAndType)
    } else if tag == 15 {
        Some(ConstantPoolTag::MethodHandle)
    } else if tag == 16 {
        Some(ConstantPoolTag::MethodType)
    } else if tag == 17 {
        Some(ConstantPoolTag::Dynamic)
    } else if tag == 18 {
        Some(ConstantPoolTag::InvokeDynamic)
    } else if tag == 19 {
        Some(ConstantPoolTag::Module)
    } else if tag == 20 {
        Some(ConstantPoolTag::Package)
    } else {
        None
    }
}

/// The kind that a tag byte stands for, or the error that names the byte.
pub open spec fn spec_tag_or_error(tag: u8) -> ClassFileResult<ConstantPoolTag> {
    match spec_tag(tag) {
        Some(kind) => Ok(kind),
        None => Err(ClassFileError::BadConstantPoolTag(tag)),
    }
}

impl ConstantPoolTag {
    /// The tag byte of this kind.
    pub open spec fn spec_number(self) -> u8 {
        match self {
            ConstantPoolTag::Utf8 => 1,
            ConstantPoolTag::Integer => 3,
            ConstantPoolTag::Float => 4,
            ConstantPoolTag::Long => 5,
            ConstantPoolTag::Double => 6,
            ConstantPoolTag::Class => 7,
            ConstantPoolTag::String => 8,
            ConstantPoolTag::FieldRef => 9,
            ConstantPoolTag::MethodRef => 10,
            ConstantPoolTag::InterfaceMethodRef => 11,
            ConstantPoolTag::NameAndType => 12,
            ConstantPoolTag::MethodHandle => 15,
            ConstantPoolTag::MethodType => 16,
            ConstantPoolTag::Dynamic => 17,
            ConstantPoolTag::InvokeDynamic => 18,
            ConstantPoolTag::Module => 19,
            ConstantPoolTag::Package => 20,
        }
    }

    /// Whether an entry of this kind takes two slots of the pool.
    pub open spec fn spec_is_wide(self) -> bool {
        self == ConstantPoolTag::Long || self == ConstantPoolTag::Double
    }

    pub fn from_u8(tag: u8) -> (r: ClassFileResult<ConstantPoolTag>)
        ensures
            r == spec_tag_or_error(tag),
            r is Ok ==> r->Ok_0.spec_number() == tag,
    {
        match tag {
            1 => Ok(ConstantPoolTag::Utf8),
            3 => Ok(ConstantPoolTag::Integer),
            4 => Ok(ConstantPoolTag::Float),
            5 => Ok(ConstantPoolTag::Long),
            6 => Ok(ConstantPoolTag::Double),
            7 => Ok(ConstantPoolTag::Class),
            8 => Ok(ConstantPoolTag::String),
            9 => Ok(ConstantPoolTag::FieldRef),
            10 => Ok(ConstantPoolTag::MethodRef),
            11 => Ok(ConstantPoolTag::InterfaceMethodRef),
            12 => Ok(ConstantPoolTag::NameAndType),
            15 => Ok(ConstantPoolTag::MethodHandle),
            16 => Ok(ConstantPoolTag::MethodType),
            17 => Ok(ConstantPoolTag::Dynamic),
            18 => Ok(ConstantPoolTag::InvokeDynamic),
            19 => Ok(ConstantPoolTag::Module),
            20 => Ok(ConstantPoolTag::Package),
            _ => Err(ClassFileError::BadConstantPoolTag(tag)),
        }
    }

    /// The tag byte of this kind.
    #[verifier::when_used_as_spec(spec_number)]
    pub fn number(self) -> (r: u8)
        ensures
            r == self.spec_number(),
            spec_tag(r) == Some(self),
    {
        match self {
            ConstantPoolTag::Utf8 => 1,
            ConstantPoolTag::Integer => 3,
            ConstantPoolTag::Float => 4,
            ConstantPoolTag::Long => 5,
            ConstantPoolTag::Double => 6,
            ConstantPoolTag::Class => 7,
            ConstantPoolTag::String => 8,
            ConstantPoolTag::FieldRef => 9,
            ConstantPoolTag::MethodRef => 10,
            ConstantPoolTag::InterfaceMethodRef => 11,
            ConstantPoolTag::NameAndType => 12,
            ConstantPoolTag::MethodHandle => 15,
            ConstantPoolTag::MethodType => 16,
            ConstantPoolTag::Dynamic => 17,
            ConstantPoolTag::InvokeDynamic => 18,
            ConstantPoolTag::Module => 19,
            ConstantPoolTag::Package => 20,
        }
    }

    /// Whether an entry of this kind takes two slots of the pool.
    #[verifier::when_used_as_spec(spec_is_wide)]
    pub fn is_wide(self) -> (r: bool)
        ensures
            r == self.spec_is_wide(),
    {
        match self {
            ConstantPoolTag::Long => true,
            ConstantPoolTag::Double => true,
            _ => false,
        }
    }
}

/// A name with its descriptor.
#[derive(Debug, Clone, PartialEq, Eq, PartialOrd, Ord, Hash)]
pub struct NameAndType {
    pub name: JavaText,
    pub desc: JavaText,
}

pub struct NameAndTypeView {
    pub name: Seq<u8>,
    pub desc: Seq<u8>,
}

impl DeepView for NameAndType {
    type V = NameAndTypeView;

    open spec fn deep_view(&self) -> NameAndTypeView {
        NameAndTypeView { name: self.name@, desc: self.desc@ }
    }
}

/// A field or method of a class: the class, the member's name and its
/// descriptor.
#[derive(Debug, Clone, PartialEq, Eq, PartialOrd, Ord, Hash)]
pub struct MemberRef {
    pub owner: JavaText,
    pub name: JavaText,
    pub desc: JavaText,
}

pub struct MemberRefView {
    pub owner: Seq<u8>,
    pub name: Seq<u8>,
    pub desc: Seq<u8>,
}

impl DeepView for MemberRef {
    type V = MemberRefView;

    open spec fn deep_view(&self) -> MemberRefView {
        MemberRefView { owner: self.owner@, name: self.name@, desc: self.desc@ }
    }
}

/// A dynamic constant or call site before its bootstrap method is resolved.
#[derive(Debug, Clone, PartialEq, Eq, PartialOrd, Ord, Hash)]
pub struct DynamicEntry {
    pub bootstrap_method_attr_index: u16,
    pub name: JavaText,
    pub desc: JavaText,
}

pub struct DynamicEntryView {
    pub bootstrap_method_attr_index: u16,
    pub name: Seq<u8>,
    pub desc: Seq<u8>,
}

impl DeepView for DynamicEntry {
    type V = DynamicEntryView;

    open spec fn deep_view(&self) -> DynamicEntryView {
        DynamicEntryView {
            bootstrap_method_attr_index: self.bootstrap_method_attr_index,
            name: self.name@,
            desc: self.desc@,
        }
    }
}

/// An entry of the pool with what it refers to resolved. `Float` and `Double`
/// hold the bits of the IEEE-754 value.
#[derive(Debug, Clone, PartialEq, Eq, PartialOrd, Ord, Hash)]
#[non_exhaustive]
pub enum ConstantPoolEntry {
    Utf8(JavaText),
    Integer(i32),
    Float(u32),
    Long(i64),
    Double(u64),
    Class(JavaText),
    String(JavaText),
    FieldRef(MemberRef),
    MethodRef(MemberRef),
    InterfaceMethodRef(MemberRef),
    NameAndType(NameAndType),
    MethodHandle(Handle),
    MethodType(JavaText),
    Dynamic(DynamicEntry),
    InvokeDynamic(DynamicEntry),
    Module(JavaText),
    Package(JavaText),
}

pub enum ConstantPoolEntryView {
    Utf8(Seq<u8>),
    Integer(i32),
    Float(u32),
    Long(i64),
    Double(u64),
    Class(Seq<u8>),
    String(Seq<u8>),
    FieldRef(MemberRefView),
    MethodRef(MemberRefView),
    InterfaceMethodRef(MemberRefView),
    NameAndType(NameAndTypeView),
    MethodHandle(HandleView),
    MethodType(Seq<u8>),
    Dynamic(DynamicEntryView),
    InvokeDynamic(DynamicEntryView),
    Module(Seq<u8>),
    Package(Seq<u8>),
}

impl DeepView for ConstantPoolEntry {
    type V = ConstantPoolEntryView;

    open spec fn deep_view(&self) -> ConstantPoolEntryView {
        match self {
            ConstantPoolEntry::Utf8(v) => ConstantPoolEntryView::Utf8(v@),
            ConstantPoolEntry::Integer(v) => ConstantPoolEntryView::Integer(*v),
            ConstantPoolEntry::Float(v) => ConstantPoolEntryView::Float(*v),
            ConstantPoolEntry::Long(v) => ConstantPoolEntryView::Long(*v),
            ConstantPoolEntry::Double(v) => ConstantPoolEntryView::Double(*v),
            ConstantPoolEntry::Class(v) => ConstantPoolEntryView::Class(v@),
            ConstantPoolEntry::String(v) => ConstantPoolEntryView::String(v@),
            ConstantPoolEntry::FieldRef(v) => ConstantPoolEntryView::FieldRef(v.deep_view()),
            ConstantPoolEntry::MethodRef(v) => ConstantPoolEntryView::MethodRef(v.deep_view()),
            ConstantPoolEntry::InterfaceMethodRef(v) => ConstantPoolEntryView::InterfaceMethodRef(
                v.deep_view(),
            ),
            ConstantPoolEntry::NameAndType(v) => ConstantPoolEntryView::NameAndType(v.deep_view()),
            ConstantPoolEntry::MethodHandle(v) => ConstantPoolEntryView::MethodHandle(v.deep_view()),
            ConstantPoolEntry::MethodType(v) => ConstantPoolEntryView::MethodType(v@),
            ConstantPoolEntry::Dynamic(v) => ConstantPoolEntryView::Dynamic(v.deep_view()),
            ConstantPoolEntry::InvokeDynamic(v) => ConstantPoolEntryView::InvokeDynamic(
                v.deep_view(),
            ),
            ConstantPoolEntry::Module(v) => ConstantPoolEntryView::Module(v@),
            ConstantPoolEntry::Package(v) => ConstantPoolEntryView::Package(v@),
        }
    }
}

/// What a constant pool is, mathematically: the bytes of the class file and,
/// for each slot, the offset of its entry's tag byte. Offset zero marks a
/// slot without an entry: slot zero, and the slot after each entry of eight
/// bytes.
pub struct Pool {
    pub data: Seq<u8>,
    pub offsets: Seq<usize>,
}

/// The offset of the first entry: the pool follows the magic number, the two
/// version numbers and its own count.
pub open spec fn pool_start() -> int {
    10
}

/// The offset just behind the entry of kind `tag` whose tag byte is at
/// `offset`, as far as the bytes that give its length can be read.
pub open spec fn spec_entry_end(data: Seq<u8>, offset: int, tag: ConstantPoolTag) -> ClassFileResult<int> {
    match tag {
        ConstantPoolTag::Class
        | ConstantPoolTag::MethodType
        | ConstantPoolTag::Module
        | ConstantPoolTag::String
        | ConstantPoolTag::Package => Ok(offset + 3),
        ConstantPoolTag::MethodHandle => Ok(offset + 4),
        ConstantPoolTag::Dynamic
        | ConstantPoolTag::FieldRef
        | ConstantPoolTag::Float
        | ConstantPoolTag::Integer
        | ConstantPoolTag::InterfaceMethodRef
        | ConstantPoolTag::InvokeDynamic
        | ConstantPoolTag::MethodRef
        | ConstantPoolTag::NameAndType => Ok(offset + 5),
        ConstantPoolTag::Double | ConstantPoolTag::Long => Ok(offset + 9),
        ConstantPoolTag::Utf8 => match spec_read_u16(data, offset + 1) {
            Ok(len) => Ok(offset + 3 + len),
            Err(e) => Err(e),
        },
    }
}

/// The error of an offset that no longer fits the machine's word.
pub open spec fn offset_overflow(data: Seq<u8>) -> ClassFileError {
    ClassFileError::OutOfBounds { index: usize::MAX, len: data.len() as usize }
}

/// The scan that builds the index, from slot `i` at `offset` on, with the
/// offsets found so far: each entry's offset is recorded in its slot, and an
/// entry of eight bytes leaves the slot after it empty. The result is the
/// finished table and the offset behind the pool.
pub open spec fn spec_scan(data: Seq<u8>, count: int, i: int, offset: int, offsets: Seq<usize>) -> ClassFileResult<
    (Seq<usize>, usize),
>
    decreases
            if i < count {
                count - i
            } else {
                0
            },
{
    if i >= count {
        Ok((offsets, offset as usize))
    } else {
        match spec_scan_step(data, offset) {
            Err(e) => Err(e),
            Ok(step) => spec_scan(data, count, i + step.1, step.0 as int, offsets.update(i, offset as usize)),
        }
    }
}

/// One step of the scan at `offset`: the offset behind the entry there, and
/// the number of slots that the entry takes.
pub open spec fn spec_scan_step(data: Seq<u8>, offset: int) -> ClassFileResult<(usize, int)> {
    match spec_read_u8(data, offset) {
        Err(e) => Err(e),
        Ok(byte) => match spec_tag_or_error(byte) {
            Err(e) => Err(e),
            Ok(tag) => match spec_entry_end(data, offset, tag) {
                Err(e) => Err(e),
                Ok(end) => if end > usize::MAX {
                    Err(offset_overflow(data))
                } else {
                    Ok(
                        (
                            end as usize,
                            if tag.spec_is_wide() {
                                2int
                            } else {
                                1int
                            },
                        ),
                    )
                },
            },
        },
    }
}

/// The index of the pool in `data`, and the offset behind the pool.
pub open spec fn spec_index(data: Seq<u8>) -> ClassFileResult<(Seq<usize>, usize)> {
    match spec_read_u16(data, 8) {
        Err(e) => Err(e),
        Ok(count) => spec_scan(
            data,
            count as int,
            1,
            pool_start(),
            Seq::new(count as nat, |k: int| 0usize),
        ),
    }
}

/// Whether the index of a pool is the one that the scan of its bytes gives.
pub open spec fn pool_wf(pool: Pool) -> bool {
    spec_index(pool.data) is Ok && spec_index(pool.data)->Ok_0.0 == pool.offsets
}

/// Whether the entry in slot `k` is in order: its tag byte names a kind, and
/// where that kind takes two slots, the slot behind it is empty.
pub open spec fn entry_sound(pool: Pool, k: int) -> bool {
    &&& spec_tag_at(pool.data, pool.offsets[k] as int) is Ok
    &&& spec_tag_at(pool.data, pool.offsets[k] as int)->Ok_0.spec_is_wide() && k + 1 < pool.offsets.len()
        ==> pool.offsets[k + 1] == 0
}

/// Whether every entry of the pool is in order, and slot zero is empty.
pub open spec fn pool_sound(pool: Pool) -> bool {
    &&& pool.offsets.len() > 0 ==> pool.offsets[0] == 0
    &&& forall|k: int| 0 <= k < pool.offsets.len() && #[trigger] pool.offsets[k] != 0 ==> entry_sound(pool, k)
}

/// What holds of the table while the scan stands at slot `i`: the slots from
/// `i` on are empty, slot zero is empty, the entries before `i` are in
/// order, and `i` is not the slot behind an entry that takes two.
pub open spec fn scanned(pool: Pool, i: int) -> bool {
    &&& pool.offsets.len() > 0 ==> pool.offsets[0] == 0
    &&& forall|k: int| i <= k < pool.offsets.len() ==> #[trigger] pool.offsets[k] == 0
    &&& forall|k: int|
        0 <= k < i && k < pool.offsets.len() && #[trigger] pool.offsets[k] != 0 ==> entry_sound(pool, k) && (
        spec_tag_at(pool.data, pool.offsets[k] as int)->Ok_0.spec_is_wide() ==> k + 1 < i)
}

/// Where the scan of the first `n` bytes of `data` comes to its end, the
/// scan of all of `data` does what it did.
pub proof fn lemma_scan_of_beginning(data: Seq<u8>, n: int, count: int, i: int, offset: int, offsets: Seq<usize>)
    requires
        0 <= n <= data.len(),
        0 <= offset,
        spec_scan(data.subrange(0, n), count, i, offset, offsets) is Ok,
    ensures
        spec_scan(data, count, i, offset, offsets) == spec_scan(data.subrange(0, n), count, i, offset, offsets),
    decreases
            if i < count {
                count - i
            } else {
                0
            },
{
    let cut = data.subrange(0, n);
    if i < count {
        let step = spec_scan_step(cut, offset);
        assert(step is Ok);
        assert(cut[offset] == data[offset]);
        let tag = spec_tag_or_error(cut[offset])->Ok_0;
        if tag == ConstantPoolTag::Utf8 {
            assert(cut[offset + 1] == data[offset + 1]);
            assert(cut[offset + 2] == data[offset + 2]);
        }
        assert(spec_scan_step(data, offset) == step);
        lemma_scan_of_beginning(data, n, count, i + step->Ok_0.1, step->Ok_0.0 as int, offsets.update(i, offset as usize));
    }
}

/// Where the first `n` bytes of `data` hold a constant pool whole, the pool
/// of `data` is that pool: both have the same index and the same end.
pub proof fn law_pool_of_beginning(data: Seq<u8>, n: int)
    requires
        0 <= n <= data.len(),
        spec_index(data.subrange(0, n)) is Ok,
    ensures
        spec_index(data) == spec_index(data.subrange(0, n)),
{
    let cut = data.subrange(0, n);
    assert(cut[8] == data[8]);
    assert(cut[9] == data[9]);
    let count = spec_read_u16(cut, 8)->Ok_0;
    lemma_scan_of_beginning(data, n, count as int, 1, pool_start() as int, Seq::new(count as nat, |k: int| 0usize));
}

/// The scan leaves every entry in order.
pub proof fn lemma_scan_sound(data: Seq<u8>, count: int, i: int, offset: int, offsets: Seq<usize>)
    requires
        count == offsets.len(),
        1 <= i,
        1 <= offset <= usize::MAX,
        scanned(Pool { data, offsets }, i),
        spec_scan(data, count, i, offset, offsets) is Ok,
    ensures
        pool_sound(Pool { data, offsets: spec_scan(data, count, i, offset, offsets)->Ok_0.0 }),
        spec_scan(data, count, i, offset, offsets)->Ok_0.0.len() == count,
    decreases
            if i < count {
                count - i
            } else {
                0
            },
{
    if i < count {
        let step = spec_scan_step(data, offset)->Ok_0;
        let next = offsets.update(i, offset as usize);
        let before = Pool { data, offsets };
        let after = Pool { data, offsets: next };
        assert forall|k: int|
            0 <= k < i + step.1 && k < next.len() && #[trigger] next[k] != 0 implies entry_sound(after, k) && (
            spec_tag_at(data, next[k] as int)->Ok_0.spec_is_wide() ==> k + 1 < i + step.1) by {
            if k < i {
                assert(offsets[k] != 0);
                assert(entry_sound(before, k));
            }
        }
        assert(scanned(after, i + step.1));
        lemma_scan_sound(data, count, i + step.1, step.0 as int, next);
    }
}

/// The slot of the entry that follows the one in slot `k`: the next slot,
/// or the one after it where the entry takes two.
pub open spec fn spec_slot_behind(pool: Pool, k: int) -> int {
    if spec_tag_at(pool.data, pool.offsets[k] as int)->Ok_0.spec_is_wide() {
        k + 2
    } else {
        k + 1
    }
}

/// The offset just behind the entry in slot `k`.
pub open spec fn spec_end_of(pool: Pool, k: int) -> int {
    spec_entry_end(
        pool.data,
        pool.offsets[k] as int,
        spec_tag_at(pool.data, pool.offsets[k] as int)->Ok_0,
    )->Ok_0
}

/// Whether the bytes that give the length of the entry in slot `k` are
/// there, so that the entry has an end.
pub open spec fn spec_ends(pool: Pool, k: int) -> bool {
    spec_entry_end(
        pool.data,
        pool.offsets[k] as int,
        spec_tag_at(pool.data, pool.offsets[k] as int)->Ok_0,
    ) is Ok
}

/// What holds of the table while the scan stands at slot `i` and at
/// `offset`: each entry before `i` is followed at its end by the next entry,
/// and the last of them ends at `offset`.
pub open spec fn chained(pool: Pool, i: int, offset: int) -> bool {
    forall|k: int|
        1 <= k < i && k < pool.offsets.len() && #[trigger] pool.offsets[k] != 0 ==> {
            let next = spec_slot_behind(pool, k);
            &&& spec_ends(pool, k)
            &&& next < i && next < pool.offsets.len() ==> pool.offsets[next] == spec_end_of(pool, k)
            &&& next >= i ==> next == i && spec_end_of(pool, k) == offset
        }
}

/// Whether the entries of the pool stand one behind the other: each entry
/// has an end, and each entry that another follows ends where that one
/// starts.
pub open spec fn pool_chained(pool: Pool) -> bool {
    forall|k: int|
        1 <= k < pool.offsets.len() && #[trigger] pool.offsets[k] != 0 ==> spec_ends(pool, k) && (
        spec_slot_behind(pool, k) < pool.offsets.len() ==> pool.offsets[spec_slot_behind(pool, k)]
            == spec_end_of(pool, k))
}

/// The scan leaves the entries one behind the other.
pub proof fn lemma_scan_chains(data: Seq<u8>, count: int, i: int, offset: int, offsets: Seq<usize>)
    requires
        count == offsets.len(),
        1 <= i,
        1 <= offset <= usize::MAX,
        scanned(Pool { data, offsets }, i),
        chained(Pool { data, offsets }, i, offset),
        spec_scan(data, count, i, offset, offsets) is Ok,
    ensures
        pool_chained(Pool { data, offsets: spec_scan(data, count, i, offset, offsets)->Ok_0.0 }),
    decreases
            if i < count {
                count - i
            } else {
                0
            },
{
    if i < count {
        let step = spec_scan_step(data, offset)->Ok_0;
        let next = offsets.update(i, offset as usize);
        let before = Pool { data, offsets };
        let after = Pool { data, offsets: next };
        assert forall|k: int|
            0 <= k < i + step.1 && k < next.len() && #[trigger] next[k] != 0 implies entry_sound(after, k) && (
            spec_tag_at(data, next[k] as int)->Ok_0.spec_is_wide() ==> k + 1 < i + step.1) by {
            if k < i {
                assert(offsets[k] != 0);
                assert(entry_sound(before, k));
            }
        }
        assert(scanned(after, i + step.1));
        assert forall|k: int| 1 <= k < i + step.1 && k < next.len() && #[trigger] next[k] != 0 implies ({
            let behind = spec_slot_behind(after, k);
            &&& spec_ends(after, k)
            &&& behind < i + step.1 && behind < next.len() ==> next[behind] == spec_end_of(after, k)
            &&& behind >= i + step.1 ==> behind == i + step.1 && spec_end_of(after, k) == step.0
        }) by {
            if k < i {
                assert(offsets[k] != 0);
                assert(spec_slot_behind(before, k) == spec_slot_behind(after, k));
                assert(spec_end_of(before, k) == spec_end_of(after, k));
                assert(spec_ends(before, k) == spec_ends(after, k));
            } else if k > i {
                assert(offsets[k] == 0);
            }
        }
        assert(chained(after, i + step.1, step.0 as int));
        lemma_scan_chains(data, count, i + step.1, step.0 as int, next);
    } else {
        let pool = Pool { data, offsets };
        assert(pool_chained(pool));
    }
}

/// In a pool that was built from a class file the entries stand one behind
/// the other: the entry that follows the one in slot `index` starts where
/// that one ends, in the next slot, or in the one after it behind an entry
/// of kind `Long` or `Double`.
pub proof fn law_entries_stand_one_behind_the_other(pool: Pool, index: u16)
    requires
        pool_wf(pool),
        spec_get_type(pool, index) is Ok,
        spec_slot_behind(pool, index as int) < pool.offsets.len(),
    ensures
        spec_ends(pool, index as int),
        pool.offsets[spec_slot_behind(pool, index as int)] == spec_end_of(pool, index as int),
        pool.offsets[spec_slot_behind(pool, index as int)] > pool.offsets[index as int],
        spec_get_type(pool, index)->Ok_0.spec_is_wide() <==> spec_slot_behind(pool, index as int) == index + 2,
{
    let count = spec_read_u16(pool.data, 8)->Ok_0;
    let zeros = Seq::new(count as nat, |k: int| 0usize);
    assert(scanned(Pool { data: pool.data, offsets: zeros }, 1));
    assert(chained(Pool { data: pool.data, offsets: zeros }, 1, pool_start()));
    lemma_scan_chains(pool.data, count as int, 1, pool_start(), zeros);
    lemma_pool_sound(pool);
    let found = spec_scan(pool.data, count as int, 1, pool_start(), zeros)->Ok_0.0;
    assert(found == pool.offsets);
    assert(pool_chained(Pool { data: pool.data, offsets: found }));
    assert(pool_chained(pool));
    assert(pool.offsets[index as int] != 0);
    assert(index >= 1);
}

/// A pool whose index is the one that the scan gives has every entry in
/// order.
pub proof fn lemma_pool_sound(pool: Pool)
    requires
        pool_wf(pool),
    ensures
        pool_sound(pool),
        pool.offsets.len() <= 0xffff,
{
    let count = spec_read_u16(pool.data, 8)->Ok_0;
    let zeros = Seq::new(count as nat, |k: int| 0usize);
    assert(scanned(Pool { data: pool.data, offsets: zeros }, 1));
    lemma_scan_sound(pool.data, count as int, 1, pool_start(), zeros);
}

/// The kind that `get_type` gives for a slot is the kind that the tag byte
/// at the offset of the slot stands for: the byte is the number of the kind.
pub proof fn law_type_agrees_with_tag_byte(pool: Pool, index: u16)
    requires
        spec_get_type(pool, index) is Ok,
    ensures
        index < pool.offsets.len(),
        pool.offsets[index as int] != 0,
        pool.offsets[index as int] < pool.data.len(),
        spec_get_type(pool, index)->Ok_0.spec_number() == pool.data[pool.offsets[index as int] as int],
        spec_tag(pool.data[pool.offsets[index as int] as int]) == Some(spec_get_type(pool, index)->Ok_0),
{
}

/// In a pool that was built from a class file every slot that holds an entry
/// has a kind: `get_type` succeeds on it.
pub proof fn law_every_entry_has_a_type(pool: Pool, index: u16)
    requires
        pool_wf(pool),
        index < pool.offsets.len(),
        pool.offsets[index as int] != 0,
    ensures
        spec_get_type(pool, index) is Ok,
{
    lemma_pool_sound(pool);
    assert(entry_sound(pool, index as int));
}

/// Where no kind is had for a slot, no entry is had for it either, for the
/// same reason.
pub proof fn lemma_get_fails_as_get_type(pool: Pool, index: u16)
    requires
        spec_get_type(pool, index) is Err,
    ensures
        spec_get(pool, index) == Err::<ConstantPoolEntryView, ClassFileError>(
            spec_get_type(pool, index)->Err_0,
        ),
{
    reveal(spec_get);
}

/// In a pool that was built from a class file the slot behind an entry of
/// kind `Long` or `Double` is empty: to ask for its kind, or for its entry,
/// fails with the error that names the empty slot. The entry that follows
/// stands two slots on, nine bytes behind the tag byte of this one.
pub proof fn law_slot_behind_wide_entry_is_empty(pool: Pool, index: u16)
    requires
        pool_wf(pool),
        spec_get_type(pool, index) is Ok,
        spec_get_type(pool, index)->Ok_0 == ConstantPoolTag::Long || spec_get_type(pool, index)->Ok_0
            == ConstantPoolTag::Double,
        index + 1 < pool.offsets.len(),
    ensures
        index + 2 < pool.offsets.len() ==> pool.offsets[index + 2] == pool.offsets[index as int] + 9,
        pool.offsets[index + 1] == 0,
        spec_offset(pool, (index + 1) as u16) == Err::<usize, ClassFileError>(
            ClassFileError::BadConstantPoolIndexNoEntry((index + 1) as u16),
        ),
        spec_get_type(pool, (index + 1) as u16) == Err::<ConstantPoolTag, ClassFileError>(
            ClassFileError::BadConstantPoolIndexNoEntry((index + 1) as u16),
        ),
        spec_get(pool, (index + 1) as u16) == Err::<ConstantPoolEntryView, ClassFileError>(
            ClassFileError::BadConstantPoolIndexNoEntry((index + 1) as u16),
        ),
{
    lemma_pool_sound(pool);
    assert(pool.offsets[index as int] != 0);
    assert(entry_sound(pool, index as int));
    assert(pool.offsets[index + 1] == 0);
    lemma_get_fails_as_get_type(pool, (index + 1) as u16);
    if index + 2 < pool.offsets.len() {
        law_entries_stand_one_behind_the_other(pool, index);
    }
}

/// The offset of the entry in slot `index`.
pub open spec fn spec_offset(pool: Pool, index: u16) -> ClassFileResult<usize> {
    if index >= pool.offsets.len() {
        Err(ClassFileError::BadConstantPoolIndex { index, len: pool.offsets.len() as usize })
    } else if pool.offsets[index as int] == 0 {
        Err(ClassFileError::BadConstantPoolIndexNoEntry(index))
    } else {
        Ok(pool.offsets[index as int])
    }
}

/// The kind of the entry whose tag byte is at `offset`.
pub open spec fn spec_tag_at(data: Seq<u8>, offset: int) -> ClassFileResult<ConstantPoolTag> {
    match spec_read_u8(data, offset) {
        Err(e) => Err(e),
        Ok(byte) => spec_tag_or_error(byte),
    }
}

/// The offset and the kind of the entry in slot `index`.
pub open spec fn spec_slot(pool: Pool, index: u16) -> ClassFileResult<(usize, ConstantPoolTag)> {
    match spec_offset(pool, index) {
        Err(e) => Err(e),
        Ok(offset) => match spec_tag_at(pool.data, offset as int) {
            Err(e) => Err(e),
            Ok(tag) => Ok((offset, tag)),
        },
    }
}

/// The kind of the entry in slot `index`.
pub open spec fn spec_get_type(pool: Pool, index: u16) -> ClassFileResult<ConstantPoolTag> {
    match spec_slot(pool, index) {
        Err(e) => Err(e),
        Ok(slot) => Ok(slot.1),
    }
}

/// The offset of the entry in slot `index`, which must be of kind `expected`.
pub open spec fn spec_entry(pool: Pool, index: u16, expected: ConstantPoolTag) -> ClassFileResult<usize> {
    match spec_slot(pool, index) {
        Err(e) => Err(e),
        Ok(slot) => if slot.1 == expected {
            Ok(slot.0)
        } else {
            Err(ClassFileError::BadConstantPoolType { expected, actual: slot.1 })
        },
    }
}

/// The bytes of the string entry at `offset`, still in modified UTF-8.
pub open spec fn spec_utf8_bytes_at(data: Seq<u8>, offset: int) -> ClassFileResult<Seq<u8>> {
    match spec_read_u16(data, offset + 1) {
        Err(e) => Err(e),
        Ok(len) => crate::buffer::read_at(
            data,
            offset + 3,
            len as int,
            data.subrange(offset + 3, offset + 3 + len),
        ),
    }
}

/// The bytes of the string in slot `index`, still in modified UTF-8.
pub open spec fn spec_get_utf8_as_bytes(pool: Pool, index: u16) -> ClassFileResult<Seq<u8>> {
    match spec_entry(pool, index, ConstantPoolTag::Utf8) {
        Err(e) => Err(e),
        Ok(offset) => spec_utf8_bytes_at(pool.data, offset as int),
    }
}

/// The string in slot `index`.
pub open spec fn spec_get_utf8(pool: Pool, index: u16) -> ClassFileResult<Seq<u8>> {
    match spec_get_utf8_as_bytes(pool, index) {
        Err(e) => Err(e),
        Ok(bytes) => spec_text(bytes),
    }
}

/// The string that the entry of kind `tag` in slot `index` names: such an
/// entry holds the slot of a string.
pub open spec fn spec_get_name(pool: Pool, index: u16, tag: ConstantPoolTag) -> ClassFileResult<Seq<u8>> {
    match spec_entry(pool, index, tag) {
        Err(e) => Err(e),
        Ok(offset) => match spec_read_u16(pool.data, offset + 1) {
            Err(e) => Err(e),
            Ok(name_index) => spec_get_utf8(pool, name_index),
        },
    }
}

pub open spec fn spec_get_class(pool: Pool, index: u16) -> ClassFileResult<Seq<u8>> {
    spec_get_name(pool, index, ConstantPoolTag::Class)
}

pub open spec fn spec_get_i32(pool: Pool, index: u16) -> ClassFileResult<i32> {
    match spec_entry(pool, index, ConstantPoolTag::Integer) {
        Err(e) => Err(e),
        Ok(offset) => spec_read_i32(pool.data, offset + 1),
    }
}

pub open spec fn spec_get_f32(pool: Pool, index: u16) -> ClassFileResult<u32> {
    match spec_entry(pool, index, ConstantPoolTag::Float) {
        Err(e) => Err(e),
        Ok(offset) => spec_read_u32(pool.data, offset + 1),
    }
}

pub open spec fn spec_get_i64(pool: Pool, index: u16) -> ClassFileResult<i64> {
    match spec_entry(pool, index, ConstantPoolTag::Long) {
        Err(e) => Err(e),
        Ok(offset) => spec_read_i64(pool.data, offset + 1),
    }
}

pub open spec fn spec_get_f64(pool: Pool, index: u16) -> ClassFileResult<u64> {
    match spec_entry(pool, index, ConstantPoolTag::Double) {
        Err(e) => Err(e),
        Ok(offset) => spec_read_u64(pool.data, offset + 1),
    }
}

pub open spec fn spec_get_name_and_type(pool: Pool, index: u16) -> ClassFileResult<NameAndTypeView> {
    match spec_entry(pool, index, ConstantPoolTag::NameAndType) {
        Err(e) => Err(e),
        Ok(offset) => match spec_read_u16(pool.data, offset + 1) {
            Err(e) => Err(e),
            Ok(name_index) => match spec_get_utf8(pool, name_index) {
                Err(e) => Err(e),
                Ok(name) => match spec_read_u16(pool.data, offset + 3) {
                    Err(e) => Err(e),
                    Ok(desc_index) => match spec_get_utf8(pool, desc_index) {
                        Err(e) => Err(e),
                        Ok(desc) => Ok(NameAndTypeView { name, desc }),
                    },
                },
            },
        },
    }
}

/// The member that the reference entry at `offset` names: the class in its
/// first slot number, name and descriptor in its second.
pub open spec fn spec_member_at(pool: Pool, offset: int) -> ClassFileResult<MemberRefView> {
    match spec_read_u16(pool.data, offset + 1) {
        Err(e) => Err(e),
        Ok(class_index) => match spec_get_class(pool, class_index) {
            Err(e) => Err(e),
            Ok(owner) => match spec_read_u16(pool.data, offset + 3) {
                Err(e) => Err(e),
                Ok(nat_index) => match spec_get_name_and_type(pool, nat_index) {
                    Err(e) => Err(e),
                    Ok(pair) => Ok(MemberRefView { owner, name: pair.name, desc: pair.desc }),
                },
            },
        },
    }
}

/// The member that the entry of kind `tag` in slot `index` names.
pub open spec fn spec_get_member(pool: Pool, index: u16, tag: ConstantPoolTag) -> ClassFileResult<
    MemberRefView,
> {
    match spec_entry(pool, index, tag) {
        Err(e) => Err(e),
        Ok(offset) => spec_member_at(pool, offset as int),
    }
}

/// The member that a handle of kind `kind` refers to in slot `index`, and
/// whether an interface method reference gave it. Field kinds take a field
/// reference, `InvokeVirtual` and `NewInvokeSpecial` a method reference,
/// `InvokeInterface` an interface method reference, `InvokeStatic` and
/// `InvokeSpecial` either of the two method references.
pub open spec fn spec_handle_member(pool: Pool, kind: HandleKind, index: u16) -> ClassFileResult<
    (MemberRefView, bool),
> {
    match kind {
        HandleKind::GetField
        | HandleKind::GetStatic
        | HandleKind::PutField
        | HandleKind::PutStatic => match spec_get_member(pool, index, ConstantPoolTag::FieldRef) {
            Err(e) => Err(e),
            Ok(member) => Ok((member, false)),
        },
        HandleKind::InvokeVirtual
        | HandleKind::NewInvokeSpecial => match spec_get_member(pool, index, ConstantPoolTag::MethodRef) {
            Err(e) => Err(e),
            Ok(member) => Ok((member, false)),
        },
        HandleKind::InvokeInterface => match spec_get_member(
            pool,
            index,
            ConstantPoolTag::InterfaceMethodRef,
        ) {
            Err(e) => Err(e),
            Ok(member) => Ok((member, true)),
        },
        HandleKind::InvokeStatic | HandleKind::InvokeSpecial => match spec_slot(pool, index) {
            Err(e) => Err(e),
            Ok(slot) => if slot.1 != ConstantPoolTag::MethodRef && slot.1
                != ConstantPoolTag::InterfaceMethodRef {
                Err(
                    ClassFileError::BadConstantPoolType {
                        expected: ConstantPoolTag::MethodRef,
                        actual: slot.1,
                    },
                )
            } else {
                match spec_member_at(pool, slot.0 as int) {
                    Err(e) => Err(e),
                    Ok(member) => Ok((member, slot.1 == ConstantPoolTag::InterfaceMethodRef)),
                }
            },
        },
    }
}

pub open spec fn spec_get_method_handle(pool: Pool, index: u16) -> ClassFileResult<HandleView> {
    match spec_entry(pool, index, ConstantPoolTag::MethodHandle) {
        Err(e) => Err(e),
        Ok(offset) => match spec_read_u8(pool.data, offset + 1) {
            Err(e) => Err(e),
            Ok(byte) => match spec_handle_kind(byte) {
                None => Err(ClassFileError::BadHandleKind(byte)),
                Some(kind) => match spec_read_u16(pool.data, offset + 2) {
                    Err(e) => Err(e),
                    Ok(ref_index) => match spec_handle_member(pool, kind, ref_index) {
                        Err(e) => Err(e),
                        Ok(found) => Ok(
                            HandleView {
                                kind,
                                owner: found.0.owner,
                                name: found.0.name,
                                desc: found.0.desc,
                                is_interface: found.1,
                            },
                        ),
                    },
                },
            },
        },
    }
}

/// The dynamic entry of kind `tag` in slot `index`.
pub open spec fn spec_get_dynamic_of(pool: Pool, index: u16, tag: ConstantPoolTag) -> ClassFileResult<
    DynamicEntryView,
> {
    match spec_entry(pool, index, tag) {
        Err(e) => Err(e),
        Ok(offset) => match spec_read_u16(pool.data, offset + 1) {
            Err(e) => Err(e),
            Ok(bootstrap_method_attr_index) => match spec_read_u16(pool.data, offset + 3) {
                Err(e) => Err(e),
                Ok(nat_index) => match spec_get_name_and_type(pool, nat_index) {
                    Err(e) => Err(e),
                    Ok(pair) => Ok(
                        DynamicEntryView {
                            bootstrap_method_attr_index,
                            name: pair.name,
                            desc: pair.desc,
                        },
                    ),
                },
            },
        },
    }
}

/// Applies `wrap` to a successful result.
pub open spec fn lift<A, B>(r: ClassFileResult<A>, wrap: spec_fn(A) -> B) -> ClassFileResult<B> {
    match r {
        Ok(v) => Ok(wrap(v)),
        Err(e) => Err(e),
    }
}

/// The entry in slot `index`, whatever its kind.
#[verifier::opaque]
pub open spec fn spec_get(pool: Pool, index: u16) -> ClassFileResult<ConstantPoolEntryView> {
    match spec_get_type(pool, index) {
        Err(e) => Err(e),
        Ok(tag) => match tag {
            ConstantPoolTag::Utf8 => lift(
                spec_get_utf8(pool, index),
                |v: Seq<u8>| ConstantPoolEntryView::Utf8(v),
            ),
            ConstantPoolTag::Integer => lift(
                spec_get_i32(pool, index),
                |v: i32| ConstantPoolEntryView::Integer(v),
            ),
            ConstantPoolTag::Float => lift(
                spec_get_f32(pool, index),
                |v: u32| ConstantPoolEntryView::Float(v),
            ),
            ConstantPoolTag::Long => lift(
                spec_get_i64(pool, index),
                |v: i64| ConstantPoolEntryView::Long(v),
            ),
            ConstantPoolTag::Double => lift(
                spec_get_f64(pool, index),
                |v: u64| ConstantPoolEntryView::Double(v),
            ),
            ConstantPoolTag::Class => lift(
                spec_get_name(pool, index, tag),
                |v: Seq<u8>| ConstantPoolEntryView::Class(v),
            ),
            ConstantPoolTag::String => lift(
                spec_get_name(pool, index, tag),
                |v: Seq<u8>| ConstantPoolEntryView::String(v),
            ),
            ConstantPoolTag::FieldRef => lift(
                spec_get_member(pool, index, tag),
                |v: MemberRefView| ConstantPoolEntryView::FieldRef(v),
            ),
            ConstantPoolTag::MethodRef => lift(
                spec_get_member(pool, index, tag),
                |v: MemberRefView| ConstantPoolEntryView::MethodRef(v),
            ),
            ConstantPoolTag::InterfaceMethodRef => lift(
                spec_get_member(pool, index, tag),
                |v: MemberRefView| ConstantPoolEntryView::InterfaceMethodRef(v),
            ),
            ConstantPoolTag::NameAndType => lift(
                spec_get_name_and_type(pool, index),
                |v: NameAndTypeView| ConstantPoolEntryView::NameAndType(v),
            ),
            ConstantPoolTag::MethodHandle => lift(
                spec_get_method_handle(pool, index),
                |v: HandleView| ConstantPoolEntryView::MethodHandle(v),
            ),
            ConstantPoolTag::MethodType => lift(
                spec_get_name(pool, index, tag),
                |v: Seq<u8>| ConstantPoolEntryView::MethodType(v),
            ),
            ConstantPoolTag::Dynamic => lift(
                spec_get_dynamic_of(pool, index, tag),
                |v: DynamicEntryView| ConstantPoolEntryView::Dynamic(v),
            ),
            ConstantPoolTag::InvokeDynamic => lift(
                spec_get_dynamic_of(pool, index, tag),
                |v: DynamicEntryView| ConstantPoolEntryView::InvokeDynamic(v),
            ),
            ConstantPoolTag::Module => lift(
                spec_get_name(pool, index, tag),
                |v: Seq<u8>| ConstantPoolEntryView::Module(v),
            ),
            ConstantPoolTag::Package => lift(
                spec_get_name(pool, index, tag),
                |v: Seq<u8>| ConstantPoolEntryView::Package(v),
            ),
        },
    }
}

/// The string whose slot number stands at `offset`.
pub open spec fn spec_utf8_at(pool: Pool, offset: int) -> ClassFileResult<Seq<u8>> {
    match spec_read_u16(pool.data, offset) {
        Err(e) => Err(e),
        Ok(index) => spec_get_utf8(pool, index),
    }
}

/// The string whose slot number stands at `offset`, or nothing where the
/// number is zero.
pub open spec fn spec_optional_utf8_at(pool: Pool, offset: int) -> ClassFileResult<Option<Seq<u8>>> {
    match spec_read_u16(pool.data, offset) {
        Err(e) => Err(e),
        Ok(index) => optional(index, spec_get_utf8(pool, index)),
    }
}

/// The name in the entry of kind `tag` whose slot number stands at `offset`.
pub open spec fn spec_name_at(pool: Pool, offset: int, tag: ConstantPoolTag) -> ClassFileResult<Seq<u8>> {
    match spec_read_u16(pool.data, offset) {
        Err(e) => Err(e),
        Ok(index) => spec_get_name(pool, index, tag),
    }
}

/// The name in the entry of kind `tag` whose slot number stands at `offset`,
/// or nothing where the number is zero.
pub open spec fn spec_optional_name_at(pool: Pool, offset: int, tag: ConstantPoolTag) -> ClassFileResult<
    Option<Seq<u8>>,
> {
    match spec_read_u16(pool.data, offset) {
        Err(e) => Err(e),
        Ok(index) => optional(index, spec_get_name(pool, index, tag)),
    }
}

/// The name and descriptor whose slot number stands at `offset`, or nothing
/// where the number is zero.
pub open spec fn spec_optional_name_and_type_at(pool: Pool, offset: int) -> ClassFileResult<
    Option<NameAndTypeView>,
> {
    match spec_read_u16(pool.data, offset) {
        Err(e) => Err(e),
        Ok(index) => optional(index, spec_get_name_and_type(pool, index)),
    }
}

/// The integer whose slot number stands at `offset`.
pub open spec fn spec_i32_at(pool: Pool, offset: int) -> ClassFileResult<i32> {
    match spec_read_u16(pool.data, offset) {
        Err(e) => Err(e),
        Ok(index) => spec_get_i32(pool, index),
    }
}

/// The `remaining` names whose slot numbers start at `offset`, each in an
/// entry of kind `tag`, behind those found so far.
pub open spec fn spec_names_from(
    pool: Pool,
    offset: int,
    remaining: int,
    tag: ConstantPoolTag,
    found: Seq<Seq<u8>>,
) -> ClassFileResult<(Seq<Seq<u8>>, int)>
    decreases remaining,
{
    if remaining <= 0 {
        Ok((found, offset))
    } else {
        match spec_name_at(pool, offset, tag) {
            Err(e) => Err(e),
            Ok(name) => spec_names_from(pool, offset + 2, remaining - 1, tag, found.push(name)),
        }
    }
}

/// What an accessor that takes slot zero for "absent" returns.
pub open spec fn optional<A>(index: u16, r: ClassFileResult<A>) -> ClassFileResult<Option<A>> {
    if index == 0 {
        Ok(None)
    } else {
        match r {
            Ok(v) => Ok(Some(v)),
            Err(e) => Err(e),
        }
    }
}

/// The constant pool of one class file.
#[derive(Debug)]
pub struct ConstantPool<'class> {
    buffer: ClassBuffer<'class>,
    offset: Vec<usize>,
}

impl<'class> View for ConstantPool<'class> {
    type V = Pool;

    closed spec fn view(&self) -> Pool {
        Pool { data: self.buffer@, offsets: self.offset@ }
    }
}

impl<'class> Clone for ConstantPool<'class> {
    fn clone(&self) -> (r: Self)
        ensures
            r@ == self@,
    {
        ConstantPool { buffer: self.buffer, offset: self.offset.clone() }
    }
}

impl<'class> ConstantPool<'class> {
    /// Whether the index is the one that the scan of the file's bytes gives.
    pub open spec fn wf(&self) -> bool {
        pool_wf(self@)
    }

    /// Builds the index of the pool in `buffer`, and returns with it the
    /// offset of what follows the pool.
    pub fn new(buffer: ClassBuffer<'class>) -> (r: ClassFileResult<(ConstantPool<'class>, usize)>)
        ensures
            r is Ok ==> r->Ok_0.0@.data == buffer@ && spec_index(buffer@) == Ok::<
                (Seq<usize>, usize),
                ClassFileError,
            >((r->Ok_0.0@.offsets, r->Ok_0.1)) && r->Ok_0.0.wf(),
            r is Err ==> spec_index(buffer@) == Err::<(Seq<usize>, usize), ClassFileError>(r->Err_0),
    {
        let constant_pool_count: usize = buffer.read_u16(8)? as usize;
        let mut cp_offset: Vec<usize> = vec![0usize; constant_pool_count];
        assert(cp_offset@ =~= Seq::new(constant_pool_count as nat, |k: int| 0usize));
        let mut current_offset: usize = 10;
        let mut i: usize = 1;
        while i < constant_pool_count
            invariant
                cp_offset@.len() == constant_pool_count,
                constant_pool_count <= 0xffff,
                1 <= i <= constant_pool_count + 1,
                spec_index(buffer@) == spec_scan(
                    buffer@,
                    constant_pool_count as int,
                    i as int,
                    current_offset as int,
                    cp_offset@,
                ),
                buffer@.len() <= usize::MAX,
            decreases constant_pool_count + 1 - i,
        {
            let tag = ConstantPoolTag::from_u8(buffer.read_u8(current_offset)?)?;
            cp_offset[i] = current_offset;
            let end: usize = match tag {
                ConstantPoolTag::Class
                | ConstantPoolTag::MethodType
                | ConstantPoolTag::Module
                | ConstantPoolTag::String
                | ConstantPoolTag::Package => match current_offset.checked_add(3) {
                    Some(end) => end,
                    None => return Err(overflow(&buffer)),
                },
                ConstantPoolTag::MethodHandle => match current_offset.checked_add(4) {
                    Some(end) => end,
                    None => return Err(overflow(&buffer)),
                },
                ConstantPoolTag::Dynamic
                | ConstantPoolTag::FieldRef
                | ConstantPoolTag::Float
                | ConstantPoolTag::Integer
                | ConstantPoolTag::InterfaceMethodRef
                | ConstantPoolTag::InvokeDynamic
                | ConstantPoolTag::MethodRef
                | ConstantPoolTag::NameAndType => match current_offset.checked_add(5) {
                    Some(end) => end,
                    None => return Err(overflow(&buffer)),
                },
                ConstantPoolTag::Double | ConstantPoolTag::Long => {
                    i = i + 1;
                    match current_offset.checked_add(9) {
                        Some(end) => end,
                        None => return Err(overflow(&buffer)),
                    }
                },
                ConstantPoolTag::Utf8 => {
                    let len: usize = buffer.read_u16(current_offset + 1)? as usize;
                    match (current_offset + 3).checked_add(len) {
                        Some(end) => end,
                        None => return Err(overflow(&buffer)),
                    }
                },
            };
            current_offset = end;
            i = i + 1;
        }
        let constant_pool = ConstantPool { buffer, offset: cp_offset };
        Ok((constant_pool, current_offset))
    }

    /// The entries of the pool in the order of their slots.
    pub fn iter(&self) -> (r: ConstantPoolIntoIter<'_, 'class>)
        ensures
            r.constant_pool == self,
            r.index == 0,
    {
        ConstantPoolIntoIter { constant_pool: self, index: 0 }
    }

    /// The buffer that the pool reads.
    pub fn buffer(&self) -> (r: &ClassBuffer<'class>)
        ensures
            r@ == self@.data,
    {
        &self.buffer
    }

    /// The string whose slot number stands at `offset`.
    pub fn utf8_at(&self, offset: usize) -> (r: ClassFileResult<JavaText>)
        ensures
            deep(r) == spec_utf8_at(self@, offset as int),
            r is Ok ==> offset + 2 <= self@.data.len() <= usize::MAX,
    {
        self.get_utf8(self.buffer.read_u16(offset)?)
    }

    /// The string whose slot number stands at `offset`, or nothing where the
    /// number is zero.
    pub fn optional_utf8_at(&self, offset: usize) -> (r: ClassFileResult<Option<JavaText>>)
        ensures
            deep(r) == spec_optional_utf8_at(self@, offset as int),
            r is Ok ==> offset + 2 <= self@.data.len() <= usize::MAX,
    {
        self.get_optional_utf8(self.buffer.read_u16(offset)?)
    }

    /// The name in the entry of kind `tag` whose slot number stands at
    /// `offset`.
    pub fn name_at(&self, offset: usize, tag: ConstantPoolTag) -> (r: ClassFileResult<JavaText>)
        ensures
            deep(r) == spec_name_at(self@, offset as int, tag),
            r is Ok ==> offset + 2 <= self@.data.len() <= usize::MAX,
    {
        self.get_name(self.buffer.read_u16(offset)?, tag)
    }

    /// The name in the entry of kind `tag` whose slot number stands at
    /// `offset`, or nothing where the number is zero.
    pub fn optional_name_at(&self, offset: usize, tag: ConstantPoolTag) -> (r: ClassFileResult<
        Option<JavaText>,
    >)
        ensures
            deep(r) == spec_optional_name_at(self@, offset as int, tag),
            r is Ok ==> offset + 2 <= self@.data.len() <= usize::MAX,
    {
        let index: u16 = self.buffer.read_u16(offset)?;
        if index == 0 {
            return Ok(None);
        }
        Ok(Some(self.get_name(index, tag)?))
    }

    /// The `count` names whose slot numbers start at `offset`, each in an
    /// entry of kind `tag`, and the offset behind them.
    pub fn names_from(&self, offset: usize, count: u16, tag: ConstantPoolTag) -> (r: ClassFileResult<
        (Vec<JavaText>, usize),
    >)
        ensures
            crate::error::parsed(r) == spec_names_from(self@, offset as int, count as int, tag, Seq::empty()),
            r is Ok ==> r->Ok_0.1 == offset + 2 * count,
            r is Ok && count > 0 ==> r->Ok_0.1 <= self@.data.len(),
            self@.data.len() <= usize::MAX,
            r is Ok ==> r->Ok_0.0@.len() == count,
    {
        let mut names: Vec<JavaText> = Vec::new();
        let mut at: usize = offset;
        let mut i: u16 = 0;
        let total: usize = self.buffer.len();
        assert(names.deep_view() =~= Seq::empty());
        while i < count
            invariant
                i <= count,
                names@.len() == i,
                at == offset + 2 * i,
                i > 0 ==> at <= self@.data.len(),
                self@.data.len() <= usize::MAX,
                spec_names_from(self@, offset as int, count as int, tag, Seq::empty()) == spec_names_from(
                    self@,
                    at as int,
                    count - i,
                    tag,
                    names.deep_view(),
                ),
            decreases count - i,
        {
            let name = self.name_at(at, tag)?;
            let ghost before = names.deep_view();
            let ghost added = name@;
            names.push(name);
            assert(names.deep_view() =~= before.push(added));
            at = at + 2;
            i = i + 1;
        }
        Ok((names, at))
    }

    /// The name and descriptor whose slot number stands at `offset`, or
    /// nothing where the number is zero.
    pub fn optional_name_and_type_at(&self, offset: usize) -> (r: ClassFileResult<Option<NameAndType>>)
        ensures
            deep(r) == spec_optional_name_and_type_at(self@, offset as int),
            r is Ok ==> offset + 2 <= self@.data.len() <= usize::MAX,
    {
        self.get_optional_name_and_type(self.buffer.read_u16(offset)?)
    }

    /// The integer whose slot number stands at `offset`.
    pub fn i32_at(&self, offset: usize) -> (r: ClassFileResult<i32>)
        ensures
            r == spec_i32_at(self@, offset as int),
            r is Ok ==> offset + 2 <= self@.data.len() <= usize::MAX,
    {
        self.get_i32(self.buffer.read_u16(offset)?)
    }

    /// Whether slot `index` is empty.
    fn is_hole(&self, index: u16) -> (r: bool)
        requires
            index < self@.offsets.len(),
        ensures
            r == (self@.offsets[index as int] == 0),
    {
        self.offset[index as usize] == 0
    }

    /// The number of slots, slot zero included.
    pub fn slot_count(&self) -> (n: usize)
        ensures
            n == self@.offsets.len(),
    {
        self.offset.len()
    }

    fn index_to_offset(&self, index: u16) -> (r: ClassFileResult<usize>)
        ensures
            r == spec_offset(self@, index),
    {
        if index as usize >= self.offset.len() {
            return Err(ClassFileError::BadConstantPoolIndex { index, len: self.offset.len() });
        }
        let offset: usize = self.offset[index as usize];
        if offset == 0 {
            Err(ClassFileError::BadConstantPoolIndexNoEntry(index))
        } else {
            Ok(offset)
        }
    }

    /// The offset and the kind of the entry in slot `index`.
    fn slot(&self, index: u16) -> (r: ClassFileResult<(usize, ConstantPoolTag)>)
        ensures
            r == spec_slot(self@, index),
            r is Ok ==> r->Ok_0.0 < self@.data.len() <= usize::MAX,
    {
        let total: usize = self.buffer.len();
        let offset: usize = self.index_to_offset(index)?;
        let tag = ConstantPoolTag::from_u8(self.buffer.read_u8(offset)?)?;
        Ok((offset, tag))
    }

    /// The offset of the entry in slot `index`, which must be of kind
    /// `expected`.
    fn entry(&self, index: u16, expected: ConstantPoolTag) -> (r: ClassFileResult<usize>)
        ensures
            r == spec_entry(self@, index, expected),
            r is Ok ==> r->Ok_0 < self@.data.len() <= usize::MAX,
    {
        let (offset, tag) = self.slot(index)?;
        if tag != expected {
            return Err(ClassFileError::BadConstantPoolType { expected, actual: tag });
        }
        Ok(offset)
    }

    /// The kind of the entry in slot `index`: the kind that the tag byte at
    /// the slot's offset stands for.
    pub fn get_type(&self, index: u16) -> (r: ClassFileResult<ConstantPoolTag>)
        ensures
            r == spec_get_type(self@, index),
            r is Ok ==> index < self@.offsets.len() && r->Ok_0.spec_number()
                == self@.data[self@.offsets[index as int] as int],
    {
        let (_, tag) = self.slot(index)?;
        Ok(tag)
    }

    /// The bytes of the string in slot `index`, still in modified UTF-8.
    pub fn get_utf8_as_bytes(&self, index: u16) -> (r: ClassFileResult<&'class [u8]>)
        ensures
            r is Ok ==> spec_get_utf8_as_bytes(self@, index) == Ok::<Seq<u8>, ClassFileError>(r->Ok_0@),
            r is Err ==> spec_get_utf8_as_bytes(self@, index) == Err::<Seq<u8>, ClassFileError>(
                r->Err_0,
            ),
    {
        let offset: usize = self.entry(index, ConstantPoolTag::Utf8)?;
        let len: u16 = self.buffer.read_u16(offset + 1)?;
        self.buffer.read_bytes(offset + 3, len as usize)
    }

    pub fn get_utf8(&self, index: u16) -> (r: ClassFileResult<JavaText>)
        ensures
            deep(r) == spec_get_utf8(self@, index),
    {
        let bytes = self.get_utf8_as_bytes(index)?;
        JavaText::from_modified_utf8(bytes)
    }

    /// The string that the entry of kind `tag` in slot `index` names.
    fn get_name(&self, index: u16, tag: ConstantPoolTag) -> (r: ClassFileResult<JavaText>)
        ensures
            deep(r) == spec_get_name(self@, index, tag),
    {
        let offset: usize = self.entry(index, tag)?;
        let name_index: u16 = self.buffer.read_u16(offset + 1)?;
        self.get_utf8(name_index)
    }

    pub fn get_i32(&self, index: u16) -> (r: ClassFileResult<i32>)
        ensures
            r == spec_get_i32(self@, index),
    {
        let offset: usize = self.entry(index, ConstantPoolTag::Integer)?;
        self.buffer.read_i32(offset + 1)
    }

    /// The bits of the float in slot `index`.
    pub fn get_f32(&self, index: u16) -> (r: ClassFileResult<u32>)
        ensures
            r == spec_get_f32(self@, index),
    {
        let offset: usize = self.entry(index, ConstantPoolTag::Float)?;
        self.buffer.read_f32(offset + 1)
    }

    pub fn get_i64(&self, index: u16) -> (r: ClassFileResult<i64>)
        ensures
            r == spec_get_i64(self@, index),
    {
        let offset: usize = self.entry(index, ConstantPoolTag::Long)?;
        self.buffer.read_i64(offset + 1)
    }

    /// The bits of the double in slot `index`.
    pub fn get_f64(&self, index: u16) -> (r: ClassFileResult<u64>)
        ensures
            r == spec_get_f64(self@, index),
    {
        let offset: usize = self.entry(index, ConstantPoolTag::Double)?;
        self.buffer.read_f64(offset + 1)
    }

    pub fn get_class(&self, index: u16) -> (r: ClassFileResult<JavaText>)
        ensures
            deep(r) == spec_get_class(self@, index),
    {
        self.get_name(index, ConstantPoolTag::Class)
    }

    pub fn get_string(&self, index: u16) -> (r: ClassFileResult<JavaText>)
        ensures
            deep(r) == spec_get_name(self@, index, ConstantPoolTag::String),
    {
        self.get_name(index, ConstantPoolTag::String)
    }

    pub fn get_method_type(&self, index: u16) -> (r: ClassFileResult<JavaText>)
        ensures
            deep(r) == spec_get_name(self@, index, ConstantPoolTag::MethodType),
    {
        self.get_name(index, ConstantPoolTag::MethodType)
    }

    pub fn get_module(&self, index: u16) -> (r: ClassFileResult<JavaText>)
        ensures
            deep(r) == spec_get_name(self@, index, ConstantPoolTag::Module),
    {
        self.get_name(index, ConstantPoolTag::Module)
    }

    pub fn get_package(&self, index: u16) -> (r: ClassFileResult<JavaText>)
        ensures
            deep(r) == spec_get_name(self@, index, ConstantPoolTag::Package),
    {
        self.get_name(index, ConstantPoolTag::Package)
    }

    pub fn get_name_and_type(&self, index: u16) -> (r: ClassFileResult<NameAndType>)
        ensures
            deep(r) == spec_get_name_and_type(self@, index),
    {
        let offset: usize = self.entry(index, ConstantPoolTag::NameAndType)?;
        let name = self.get_utf8(self.buffer.read_u16(offset + 1)?)?;
        let desc = self.get_utf8(self.buffer.read_u16(offset + 3)?)?;
        Ok(NameAndType { name, desc })
    }

    /// The member that the reference entry at `offset` names.
    fn member_at(&self, offset: usize) -> (r: ClassFileResult<MemberRef>)
        requires
            offset < self@.data.len() <= usize::MAX,
        ensures
            deep(r) == spec_member_at(self@, offset as int),
    {
        let owner = self.get_class(self.buffer.read_u16(offset + 1)?)?;
        let name_and_type = self.get_name_and_type(self.buffer.read_u16(offset + 3)?)?;
        Ok(MemberRef { owner, name: name_and_type.name, desc: name_and_type.desc })
    }

    /// The member that the entry of kind `tag` in slot `index` names.
    fn get_member(&self, index: u16, tag: ConstantPoolTag) -> (r: ClassFileResult<MemberRef>)
        ensures
            deep(r) == spec_get_member(self@, index, tag),
    {
        let offset: usize = self.entry(index, tag)?;
        self.member_at(offset)
    }

    pub fn get_field_ref(&self, index: u16) -> (r: ClassFileResult<MemberRef>)
        ensures
            deep(r) == spec_get_member(self@, index, ConstantPoolTag::FieldRef),
    {
        self.get_member(index, ConstantPoolTag::FieldRef)
    }

    pub fn get_method_ref(&self, index: u16) -> (r: ClassFileResult<MemberRef>)
        ensures
            deep(r) == spec_get_member(self@, index, ConstantPoolTag::MethodRef),
    {
        self.get_member(index, ConstantPoolTag::MethodRef)
    }

    pub fn get_interface_method_ref(&self, index: u16) -> (r: ClassFileResult<MemberRef>)
        ensures
            deep(r) == spec_get_member(self@, index, ConstantPoolTag::InterfaceMethodRef),
    {
        self.get_member(index, ConstantPoolTag::InterfaceMethodRef)
    }

    /// The member that a handle of kind `kind` refers to in slot `index`, and
    /// whether an interface method reference gave it.
    fn handle_member(&self, kind: HandleKind, index: u16) -> (r: ClassFileResult<(MemberRef, bool)>)
        ensures
            r is Ok ==> spec_handle_member(self@, kind, index) == Ok::<
                (MemberRefView, bool),
                ClassFileError,
            >((r->Ok_0.0.deep_view(), r->Ok_0.1)),
            r is Err ==> spec_handle_member(self@, kind, index) == Err::<
                (MemberRefView, bool),
                ClassFileError,
            >(r->Err_0),
    {
        match kind {
            HandleKind::GetField
            | HandleKind::GetStatic
            | HandleKind::PutField
            | HandleKind::PutStatic => Ok((self.get_field_ref(index)?, false)),
            HandleKind::InvokeVirtual | HandleKind::NewInvokeSpecial => Ok(
                (self.get_method_ref(index)?, false),
            ),
            HandleKind::InvokeInterface => Ok((self.get_interface_method_ref(index)?, true)),
            HandleKind::InvokeStatic | HandleKind::InvokeSpecial => {
                let (offset, tag) = self.slot(index)?;
                if tag != ConstantPoolTag::MethodRef && tag != ConstantPoolTag::InterfaceMethodRef {
                    return Err(
                        ClassFileError::BadConstantPoolType {
                            expected: ConstantPoolTag::MethodRef,
                            actual: tag,
                        },
                    );
                }
                let member = self.member_at(offset)?;
                Ok((member, tag == ConstantPoolTag::InterfaceMethodRef))
            },
        }
    }

    pub fn get_method_handle(&self, index: u16) -> (r: ClassFileResult<Handle>)
        ensures
            deep(r) == spec_get_method_handle(self@, index),
    {
        let offset: usize = self.entry(index, ConstantPoolTag::MethodHandle)?;
        let kind = HandleKind::from_u8(self.buffer.read_u8(offset + 1)?)?;
        let ref_index: u16 = self.buffer.read_u16(offset + 2)?;
        let (member_ref, is_interface) = self.handle_member(kind, ref_index)?;
        Ok(
            Handle {
                kind,
                owner: member_ref.owner,
                name: member_ref.name,
                desc: member_ref.desc,
                is_interface,
            },
        )
    }

    /// The dynamic entry of kind `tag` in slot `index`.
    fn get_dynamic_of(&self, index: u16, tag: ConstantPoolTag) -> (r: ClassFileResult<DynamicEntry>)
        ensures
            deep(r) == spec_get_dynamic_of(self@, index, tag),
    {
        let offset: usize = self.entry(index, tag)?;
        let bootstrap_method_attr_index: u16 = self.buffer.read_u16(offset + 1)?;
        let name_and_type = self.get_name_and_type(self.buffer.read_u16(offset + 3)?)?;
        Ok(
            DynamicEntry {
                bootstrap_method_attr_index,
                name: name_and_type.name,
                desc: name_and_type.desc,
            },
        )
    }

    pub fn get_dynamic(&self, index: u16) -> (r: ClassFileResult<DynamicEntry>)
        ensures
            deep(r) == spec_get_dynamic_of(self@, index, ConstantPoolTag::Dynamic),
    {
        self.get_dynamic_of(index, ConstantPoolTag::Dynamic)
    }

    pub fn get_invoke_dynamic(&self, index: u16) -> (r: ClassFileResult<DynamicEntry>)
        ensures
            deep(r) == spec_get_dynamic_of(self@, index, ConstantPoolTag::InvokeDynamic),
    {
        self.get_dynamic_of(index, ConstantPoolTag::InvokeDynamic)
    }

    /// The entry in slot `index`, whatever its kind.
    pub fn get(&self, index: u16) -> (r: ClassFileResult<ConstantPoolEntry>)
        ensures
            deep(r) == spec_get(self@, index),
    {
        reveal(spec_get);
        let tag = self.get_type(index)?;
        match tag {
            ConstantPoolTag::Utf8 => Ok(ConstantPoolEntry::Utf8(self.get_utf8(index)?)),
            ConstantPoolTag::Integer => Ok(ConstantPoolEntry::Integer(self.get_i32(index)?)),
            ConstantPoolTag::Float => Ok(ConstantPoolEntry::Float(self.get_f32(index)?)),
            ConstantPoolTag::Long => Ok(ConstantPoolEntry::Long(self.get_i64(index)?)),
            ConstantPoolTag::Double => Ok(ConstantPoolEntry::Double(self.get_f64(index)?)),
            ConstantPoolTag::Class => Ok(ConstantPoolEntry::Class(self.get_class(index)?)),
            ConstantPoolTag::String => Ok(ConstantPoolEntry::String(self.get_string(index)?)),
            ConstantPoolTag::FieldRef => Ok(ConstantPoolEntry::FieldRef(self.get_field_ref(index)?)),
            ConstantPoolTag::MethodRef => Ok(
                ConstantPoolEntry::MethodRef(self.get_method_ref(index)?),
            ),
            ConstantPoolTag::InterfaceMethodRef => Ok(
                ConstantPoolEntry::InterfaceMethodRef(self.get_interface_method_ref(index)?),
            ),
            ConstantPoolTag::NameAndType => Ok(
                ConstantPoolEntry::NameAndType(self.get_name_and_type(index)?),
            ),
            ConstantPoolTag::MethodHandle => Ok(
                ConstantPoolEntry::MethodHandle(self.get_method_handle(index)?),
            ),
            ConstantPoolTag::MethodType => Ok(
                ConstantPoolEntry::MethodType(self.get_method_type(index)?),
            ),
            ConstantPoolTag::Dynamic => Ok(ConstantPoolEntry::Dynamic(self.get_dynamic(index)?)),
            ConstantPoolTag::InvokeDynamic => Ok(
                ConstantPoolEntry::InvokeDynamic(self.get_invoke_dynamic(index)?),
            ),
            ConstantPoolTag::Module => Ok(ConstantPoolEntry::Module(self.get_module(index)?)),
            ConstantPoolTag::Package => Ok(ConstantPoolEntry::Package(self.get_package(index)?)),
        }
    }

    /// The entry in slot `index`, or nothing for slot zero.
    pub fn get_optional(&self, index: u16) -> (r: ClassFileResult<Option<ConstantPoolEntry>>)
        ensures
            deep(r) == optional(index, spec_get(self@, index)),
    {
        if index == 0 {
            return Ok(None);
        }
        Ok(Some(self.get(index)?))
    }

    pub fn get_optional_utf8(&self, index: u16) -> (r: ClassFileResult<Option<JavaText>>)
        ensures
            deep(r) == optional(index, spec_get_utf8(self@, index)),
    {
        if index == 0 {
            return Ok(None);
        }
        Ok(Some(self.get_utf8(index)?))
    }

    pub fn get_optional_class(&self, index: u16) -> (r: ClassFileResult<Option<JavaText>>)
        ensures
            deep(r) == optional(index, spec_get_class(self@, index)),
    {
        if index == 0 {
            return Ok(None);
        }
        Ok(Some(self.get_class(index)?))
    }

    pub fn get_optional_name_and_type(&self, index: u16) -> (r: ClassFileResult<Option<NameAndType>>)
        ensures
            deep(r) == optional(index, spec_get_name_and_type(self@, index)),
    {
        if index == 0 {
            return Ok(None);
        }
        Ok(Some(self.get_name_and_type(index)?))
    }
}

/// The error of an offset that no longer fits the machine's word.
fn overflow(buffer: &ClassBuffer) -> (e: ClassFileError)
    ensures
        e == offset_overflow(buffer@),
{
    ClassFileError::OutOfBounds { index: usize::MAX, len: buffer.len() }
}

/// The last slot of a pool with `slots` slots, slot zero counted; zero for a
/// pool without slots.
pub open spec fn spec_last_slot(slots: int) -> u16 {
    if slots <= 0 {
        0u16
    } else if slots > 0x1_0000 {
        0xffffu16
    } else {
        (slots - 1) as u16
    }
}

/// The slot whose entry comes next behind slot `index`, if there is one,
/// and the slot at which the walk then stands. The walk goes on by one slot,
/// and by one more where it comes on an empty slot that is not the last; an
/// empty slot then ends it.
pub open spec fn spec_next_slot(pool: Pool, index: u16) -> (Option<u16>, u16) {
    let last = spec_last_slot(pool.offsets.len() as int);
    if index >= last {
        (None, index)
    } else {
        let first = (index + 1) as u16;
        let second = if pool.offsets[first as int] == 0 && first < last {
            (first + 1) as u16
        } else {
            first
        };
        if pool.offsets[second as int] == 0 {
            (None, second)
        } else {
            (Some(second), second)
        }
    }
}

/// Walks the entries of a pool in the order of their slots. It passes over
/// the empty slot behind an entry that takes two.
#[derive(Debug, Copy, Clone)]
pub struct ConstantPoolIntoIter<'a, 'class> {
    pub constant_pool: &'a ConstantPool<'class>,
    /// The slot of the entry that was yielded last.
    pub index: u16,
}

impl<'a, 'class> ConstantPoolIntoIter<'a, 'class> {
    /// The last slot of the pool.
    fn last_slot(&self) -> (r: u16)
        ensures
            r == spec_last_slot(self.constant_pool@.offsets.len() as int),
            r < self.constant_pool@.offsets.len() || self.constant_pool@.offsets.len() == 0,
    {
        let slots: usize = self.constant_pool.slot_count();
        if slots == 0 {
            0
        } else if slots > 0x1_0000 {
            0xffff
        } else {
            (slots - 1) as u16
        }
    }

    /// The next entry, or nothing behind the last one.
    pub fn next(&mut self) -> (r: Option<ClassFileResult<ConstantPoolEntry>>)
        ensures
            final(self).constant_pool == old(self).constant_pool,
            final(self).index == spec_next_slot(old(self).constant_pool@, old(self).index).1,
            crate::error::yielded(r) == match spec_next_slot(old(self).constant_pool@, old(self).index).0 {
                None => None::<ClassFileResult<ConstantPoolEntryView>>,
                Some(slot) => Some(spec_get(old(self).constant_pool@, slot)),
            },
    {
        let cp_max: u16 = self.last_slot();
        if self.index >= cp_max {
            return None;
        }
        self.index = self.index + 1;
        if self.constant_pool.is_hole(self.index) && self.index < cp_max {
            self.index = self.index + 1;
        }
        if self.constant_pool.is_hole(self.index) {
            return None;
        }
        Some(self.constant_pool.get(self.index))
    }

    /// Between how many entries the walk yields in all: at least half the
    /// slots behind slot zero, at most all of them.
    pub fn size_hint(&self) -> (r: (usize, Option<usize>))
        ensures
            r.0 == (if self.constant_pool@.offsets.len() == 0 {
                0
            } else {
                (self.constant_pool@.offsets.len() - 1) / 2
            }),
            r.1 == Some(
                (if self.constant_pool@.offsets.len() == 0 {
                    0
                } else {
                    self.constant_pool@.offsets.len() - 1
                }) as usize,
            ),
    {
        let slots: usize = self.constant_pool.slot_count();
        if slots == 0 {
            (0, Some(0))
        } else {
            ((slots - 1) / 2, Some(slots - 1))
        }
    }
}

} // verus!
