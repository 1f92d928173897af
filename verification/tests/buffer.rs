use classfile::class_reader::ClassReader;
use classfile::{ClassAccess, ClassBuffer, ClassFileError, ClassReaderFlags, FieldAccess, NewArrayType, Opcode};

#[test]
fn read_u16_is_big_endian() {
    let data = [0x12u8, 0x34, 0x56];
    let buffer = ClassBuffer::new(&data);
    assert_eq!(buffer.read_u16(0), Ok(0x1234));
    assert_eq!(buffer.read_u16(1), Ok(0x3456));
    assert_eq!(buffer.read_u16(2), Err(ClassFileError::OutOfBounds { index: 3, len: 3 }));
}

#[test]
fn reads_of_every_width() {
    let data = [0x80u8, 0x01, 0x02, 0x03, 0x04, 0x05, 0x06, 0x07, 0xff];
    let buffer = ClassBuffer::new(&data);
    assert_eq!(9, buffer.len());
    assert!(!buffer.is_empty());
    assert!(ClassBuffer::new(&[]).is_empty());
    assert_eq!(Ok(0x80), buffer.read_u8(0));
    assert_eq!(Ok(-128), buffer.read_i8(0));
    assert_eq!(Ok(-1), buffer.read_i8(8));
    assert_eq!(Ok(0x8001), buffer.read_u16(0));
    assert_eq!(Ok(-32767), buffer.read_i16(0));
    assert_eq!(Ok(0x0102), buffer.read_i16(1));
    assert_eq!(Ok(0x8001_0203), buffer.read_u32(0));
    assert_eq!(Ok(-2147417597), buffer.read_i32(0));
    assert_eq!(Ok(0x0102_0304), buffer.read_i32(1));
    assert_eq!(Ok(0x8001_0203_0405_0607), buffer.read_u64(0));
    assert_eq!(Ok(0x8001_0203_0405_0607u64 as i64), buffer.read_i64(0));
    assert_eq!(Ok(0x0102_0304_0506_07ff), buffer.read_i64(1));
    assert_eq!(Ok(1.5f32), ClassBuffer::new(&1.5f32.to_be_bytes()).read_f32(0).map(f32::from_bits));
    assert_eq!(Ok(-2.25f64), ClassBuffer::new(&(-2.25f64).to_be_bytes()).read_f64(0).map(f64::from_bits));
    assert_eq!(Ok(&data[2..5]), buffer.read_bytes(2, 3));
    assert_eq!(Ok(&data[9..]), buffer.read_bytes(9, 0));
}

#[test]
fn reads_behind_the_end_fail() {
    let data = [1u8, 2, 3, 4];
    let buffer = ClassBuffer::new(&data);
    assert_eq!(Err(ClassFileError::OutOfBounds { index: 4, len: 4 }), buffer.read_u8(4));
    assert_eq!(Err(ClassFileError::OutOfBounds { index: 4, len: 4 }), buffer.read_u16(3));
    assert_eq!(Err(ClassFileError::OutOfBounds { index: 4, len: 4 }), buffer.read_u32(1));
    assert_eq!(Err(ClassFileError::OutOfBounds { index: 7, len: 4 }), buffer.read_u64(0));
    assert_eq!(Err(ClassFileError::OutOfBounds { index: 10, len: 4 }), buffer.read_i64(3));
    assert_eq!(Err(ClassFileError::OutOfBounds { index: 5, len: 4 }), buffer.read_bytes(3, 3));
    assert_eq!(Err(ClassFileError::OutOfBounds { index: 4, len: 4 }), buffer.read_bytes(5, 0));
    assert_eq!(
        Err(ClassFileError::OutOfBounds { index: usize::MAX, len: 4 }),
        buffer.read_bytes(usize::MAX, 2)
    );
    assert_eq!(Err(ClassFileError::OutOfBounds { index: usize::MAX, len: 4 }), buffer.read_u8(usize::MAX));
}

#[test]
fn a_slice_is_a_cursor_of_its_own() {
    let data = [1u8, 2, 3, 4];
    let buffer = ClassBuffer::new(&data);
    let part = buffer.slice(1, 3).unwrap();
    assert_eq!(2, part.len());
    assert_eq!(Ok(2), part.read_u8(0));
    assert_eq!(Err(ClassFileError::OutOfBounds { index: 2, len: 2 }), part.read_u8(2));
    assert_eq!(&data[1..3], part.as_bytes());
    assert!(buffer.slice(4, 4).unwrap().is_empty());
    assert_eq!(
        Some(ClassFileError::OutOfBounds { index: 4, len: 4 }),
        buffer.slice(2, 5).err()
    );
    assert_eq!(
        Some(ClassFileError::OutOfBounds { index: 4, len: 4 }),
        buffer.slice(3, 2).err()
    );
}

#[test]
fn flags_are_sets_of_bits() {
    let access = ClassAccess::from_bits_retain(ClassAccess::PUBLIC | ClassAccess::FINAL);
    assert!(access.contains(ClassAccess::PUBLIC));
    assert!(access.contains(ClassAccess::PUBLIC | ClassAccess::FINAL));
    assert!(!access.contains(ClassAccess::PUBLIC | ClassAccess::SUPER));
    assert!(access.contains(0));
    assert_eq!(0x0011, access.bits());
    assert_eq!(ClassAccess::default(), ClassAccess::empty());
    let mut field = FieldAccess::from_bits_retain(FieldAccess::PRIVATE);
    field.insert(FieldAccess::SYNTHETIC);
    assert_eq!(0x1002, field.bits());
    assert!(ClassReaderFlags::from_bits_retain(3).contains(ClassReaderFlags::SKIP_DEBUG));
    assert!(!ClassReaderFlags::from_bits_retain(3).contains(ClassReaderFlags::SKIP_FRAMES));
}

#[test]
fn opcodes_have_their_numbers() {
    for byte in 0..=255u8 {
        match Opcode::from_u8(byte) {
            Ok(opcode) => assert_eq!(byte, opcode.number()),
            Err(e) => assert_eq!(ClassFileError::BadOpcode(byte), e),
        }
    }
    assert_eq!(Ok(Opcode::Nop), Opcode::from_u8(0));
    assert_eq!(Ok(Opcode::IfNonNull), Opcode::from_u8(199));
    assert_eq!(Err(ClassFileError::BadOpcode(19)), Opcode::from_u8(19));
    assert_eq!(Err(ClassFileError::BadOpcode(196)), Opcode::from_u8(196));
    assert_eq!(Ok(NewArrayType::Boolean), NewArrayType::from_u8(4));
    assert_eq!(Ok(NewArrayType::Long), NewArrayType::from_u8(11));
    assert_eq!(11, NewArrayType::Long.number());
    assert_eq!(Err(ClassFileError::BadNewArrayType(12)), NewArrayType::from_u8(12));
}

#[test]
fn reader_of_nothing() {
    assert_eq!(
        Some(ClassFileError::OutOfBounds { index: 3, len: 0 }),
        ClassReader::new(&[], ClassReaderFlags::empty()).err()
    );
}
