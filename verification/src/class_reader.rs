//! The reader of one class file.

use crate::access::{ClassAccess, ClassReaderFlags};
use crate::buffer::{
    advance, be_u16, spec_advance, spec_read_u16, spec_read_u32, ClassBuffer,
};
use crate::constant_pool::{
    law_pool_of_beginning, spec_get_class, spec_index, spec_name_at, spec_optional_name_at,
    ConstantPool, ConstantPoolTag, Pool,
};
use crate::constants::{LATEST_MAJOR_VERSION, MAGIC};
use crate::error::{deep, ClassFileError, ClassFileResult};
use crate::text::JavaText;
use vstd::prelude::*;

verus! {

/// What a reader is, mathematically: the constant pool with the bytes of the
/// file, the offset of what follows the pool, and the reader's flags.
pub struct Reader {
    pub pool: Pool,
    pub metadata_start: usize,
    pub flags: ClassReaderFlags,
}

/// What opening a class file gives: the index of its constant pool and the
/// offset behind the pool. The file starts with the magic number; its major
/// version, at offset six, must not be newer than the newest that is known.
pub open spec fn spec_open(data: Seq<u8>) -> ClassFileResult<(Seq<usize>, usize)> {
    match spec_read_u32(data, 0) {
        Err(e) => Err(e),
        Ok(magic) => if magic != MAGIC {
            Err(ClassFileError::BadMagic)
        } else {
            match spec_read_u16(data, 6) {
                Err(e) => Err(e),
                Ok(major) => if major > LATEST_MAJOR_VERSION {
                    Err(ClassFileError::UnsupportedVersion(major))
                } else {
                    spec_index(data)
                },
            }
        },
    }
}

/// Where the first `n` bytes of a file open, the file opens as they do: with
/// the same index of the pool and the same offset behind the pool.
pub proof fn law_file_opens_as_its_beginning(data: Seq<u8>, n: int)
    requires
        0 <= n <= data.len(),
        spec_open(data.subrange(0, n)) is Ok,
    ensures
        spec_open(data) == spec_open(data.subrange(0, n)),
{
    let cut = data.subrange(0, n);
    assert(n >= 8);
    assert forall|k: int| 0 <= k < 8 implies cut[k] == data[k] by {}
    assert(cut[0] == data[0] && cut[1] == data[1] && cut[2] == data[2] && cut[3] == data[3]);
    assert(cut[6] == data[6] && cut[7] == data[7]);
    law_pool_of_beginning(data, n);
}

/// Whether `reader` is a reader that opening the file `data` gives.
pub open spec fn spec_opened(reader: Reader, data: Seq<u8>) -> bool {
    &&& reader.pool.data == data
    &&& spec_open(data) == Ok::<(Seq<usize>, usize), ClassFileError>((reader.pool.offsets, reader.metadata_start))
}

/// The class of the file: the name in the class entry whose slot number
/// stands two bytes behind the pool.
pub open spec fn spec_class_name(reader: Reader) -> ClassFileResult<Seq<u8>> {
    spec_name_at(reader.pool, reader.metadata_start + 2, ConstantPoolTag::Class)
}

/// The superclass, or nothing where its slot number is zero.
pub open spec fn spec_super_name(reader: Reader) -> ClassFileResult<Option<Seq<u8>>> {
    spec_optional_name_at(reader.pool, reader.metadata_start + 4, ConstantPoolTag::Class)
}

/// The interface with index `index`.
pub open spec fn spec_interface(reader: Reader, index: int) -> ClassFileResult<Seq<u8>> {
    spec_name_at(reader.pool, reader.metadata_start + 8 + 2 * index, ConstantPoolTag::Class)
}

/// A reader over the bytes of one class file.
#[derive(Debug)]
pub struct ClassReader<'class> {
    buffer: ClassBuffer<'class>,
    constant_pool: ConstantPool<'class>,
    metadata_start: usize,
    reader_flags: ClassReaderFlags,
}

impl<'class> View for ClassReader<'class> {
    type V = Reader;

    closed spec fn view(&self) -> Reader {
        Reader {
            pool: self.constant_pool@,
            metadata_start: self.metadata_start,
            flags: self.reader_flags,
        }
    }
}

impl<'class> Clone for ClassReader<'class> {
    fn clone(&self) -> (r: Self)
        ensures
            r@ == self@,
    {
        proof {
            use_type_invariant(self);
        }
        ClassReader {
            buffer: self.buffer,
            constant_pool: self.constant_pool.clone(),
            metadata_start: self.metadata_start,
            reader_flags: self.reader_flags,
        }
    }
}

impl<'class> ClassReader<'class> {
    #[verifier::type_invariant]
    spec fn inv(self) -> bool {
        &&& self.buffer@ == self.constant_pool@.data
        &&& self.buffer@.len() >= 10
        &&& self.constant_pool.wf()
    }

    /// Whether the reader stands on a file that opens: the file has the ten
    /// bytes before the pool, and the pool's index is what its scan gives.
    pub open spec fn wf(&self) -> bool {
        &&& self@.pool.data.len() >= 10
        &&& spec_index(self@.pool.data) is Ok
        &&& spec_index(self@.pool.data)->Ok_0.0 == self@.pool.offsets
    }

    /// Opens a class file. This checks the magic number and the version and
    /// builds the index of the constant pool.
    pub fn new(data: &'class [u8], reader_flags: ClassReaderFlags) -> (r: ClassFileResult<
        ClassReader<'class>,
    >)
        ensures
            r is Ok ==> r->Ok_0@.pool.data == data@ && r->Ok_0@.flags == reader_flags && spec_open(data@)
                == Ok::<(Seq<usize>, usize), ClassFileError>(
                (r->Ok_0@.pool.offsets, r->Ok_0@.metadata_start),
            ) && r->Ok_0.wf(),
            r is Err ==> spec_open(data@) == Err::<(Seq<usize>, usize), ClassFileError>(r->Err_0),
    {
        let buffer = ClassBuffer::new(data);
        if buffer.read_u32(0)? != MAGIC {
            return Err(ClassFileError::BadMagic);
        }
        let major: u16 = buffer.read_u16(6)?;
        if major > LATEST_MAJOR_VERSION {
            return Err(ClassFileError::UnsupportedVersion(major));
        }
        let (constant_pool, metadata_start) = ConstantPool::new(buffer)?;
        Ok(ClassReader { buffer, constant_pool, metadata_start, reader_flags })
    }

    /// The constant pool of the class.
    pub fn constant_pool(&self) -> (r: &ConstantPool<'class>)
        ensures
            r@ == self@.pool,
            r.wf(),
    {
        proof {
            use_type_invariant(self);
        }
        &self.constant_pool
    }

    /// The bytes of the class file.
    pub fn buffer(&self) -> (r: &ClassBuffer<'class>)
        ensures
            r@ == self@.pool.data,
    {
        proof {
            use_type_invariant(self);
        }
        &self.buffer
    }

    /// The flags that the reader was opened with.
    pub fn flags(&self) -> (r: ClassReaderFlags)
        ensures
            r == self@.flags,
    {
        self.reader_flags
    }

    /// The offset of what follows the constant pool: the access flags of the
    /// class.
    pub fn metadata_start(&self) -> (r: usize)
        ensures
            r == self@.metadata_start,
    {
        self.metadata_start
    }

    pub fn major_version(&self) -> (r: u16)
        ensures
            r == be_u16(self@.pool.data, 6),
    {
        proof {
            use_type_invariant(self);
        }
        match self.buffer.read_u16(6) {
            Ok(v) => v,
            Err(_) => 0,
        }
    }

    pub fn minor_version(&self) -> (r: u16)
        ensures
            r == be_u16(self@.pool.data, 4),
    {
        proof {
            use_type_invariant(self);
        }
        match self.buffer.read_u16(4) {
            Ok(v) => v,
            Err(_) => 0,
        }
    }

    /// The access flags of the class. For a class older than Java 1.5 they
    /// do not show whether the class is synthetic: the events do.
    pub fn access(&self) -> (r: ClassFileResult<ClassAccess>)
        ensures
            r is Ok ==> spec_read_u16(self@.pool.data, self@.metadata_start as int) == Ok::<
                u16,
                ClassFileError,
            >(r->Ok_0.bits),
            r is Err ==> spec_read_u16(self@.pool.data, self@.metadata_start as int) == Err::<
                u16,
                ClassFileError,
            >(r->Err_0),
    {
        proof {
            use_type_invariant(self);
        }
        Ok(ClassAccess::from_bits_retain(self.buffer.read_u16(self.metadata_start)?))
    }

    pub fn name(&self) -> (r: ClassFileResult<JavaText>)
        ensures
            deep(r) == spec_class_name(self@),
    {
        proof {
            use_type_invariant(self);
        }
        self.constant_pool.name_at(self.buffer.advance(self.metadata_start, 2), ConstantPoolTag::Class)
    }

    pub fn super_name(&self) -> (r: ClassFileResult<Option<JavaText>>)
        ensures
            deep(r) == spec_super_name(self@),
    {
        proof {
            use_type_invariant(self);
        }
        self.constant_pool.optional_name_at(
            self.buffer.advance(self.metadata_start, 4),
            ConstantPoolTag::Class,
        )
    }

    /// The number of interfaces that the class names.
    pub fn interface_count(&self) -> (r: ClassFileResult<u16>)
        ensures
            r == spec_read_u16(self@.pool.data, self@.metadata_start + 6),
    {
        proof {
            use_type_invariant(self);
        }
        self.buffer.read_u16(self.buffer.advance(self.metadata_start, 6))
    }

    /// The interfaces that the class names, in the order of the file.
    pub fn interfaces(&self) -> (r: ClassFileResult<InterfacesIterator<'_, 'class>>)
        ensures
            r is Ok ==> r->Ok_0.reader == self && r->Ok_0.index == 0 && spec_read_u16(
                self@.pool.data,
                self@.metadata_start + 6,
            ) == Ok::<u16, ClassFileError>(r->Ok_0.interface_count as u16) && r->Ok_0.interface_count
                <= 0xffff,
            r is Err ==> spec_read_u16(self@.pool.data, self@.metadata_start + 6) == Err::<
                u16,
                ClassFileError,
            >(r->Err_0),
    {
        let interface_count: usize = self.interface_count()? as usize;
        Ok(InterfacesIterator { reader: self, interface_count, index: 0 })
    }
}

/// Walks the interfaces of a class.
#[derive(Debug, Copy, Clone)]
pub struct InterfacesIterator<'reader, 'class> {
    pub reader: &'reader ClassReader<'class>,
    pub interface_count: usize,
    pub index: usize,
}

impl<'reader, 'class> InterfacesIterator<'reader, 'class> {
    /// The next interface, or nothing behind the last one.
    pub fn next(&mut self) -> (r: Option<ClassFileResult<JavaText>>)
        ensures
            final(self).reader == old(self).reader,
            final(self).interface_count == old(self).interface_count,
            old(self).index >= old(self).interface_count ==> r is None && final(self).index == old(self).index,
            old(self).index < old(self).interface_count ==> r is Some && final(self).index == old(self).index + 1
                && deep(r->Some_0) == spec_interface(old(self).reader@, old(self).index as int),
    {
        if self.index >= self.interface_count {
            return None;
        }
        let index: usize = self.index;
        self.index = index + 1;
        let buffer = self.reader.buffer();
        let at: usize = match index.checked_mul(2) {
            Some(by) => buffer.advance(buffer.advance(self.reader.metadata_start(), 8), by),
            None => buffer.advance(usize::MAX, 0),
        };
        Some(self.reader.constant_pool().name_at(at, ConstantPoolTag::Class))
    }

    /// The number of interfaces that are still to come.
    pub fn remaining(&self) -> (n: usize)
        ensures
            n == (if self.index < self.interface_count {
                self.interface_count - self.index
            } else {
                0
            }),
    {
        if self.index < self.interface_count {
            self.interface_count - self.index
        } else {
            0
        }
    }
}

} // verus!
