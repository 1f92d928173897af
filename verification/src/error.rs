//! The error taxonomy shared by every decoding function.

use crate::constant_pool::ConstantPoolTag;
use crate::opcodes::Opcode;
use vstd::prelude::*;

verus! {

/// The decoding error of the string library, carried through unchanged.
#[verifier::external_type_specification]
#[verifier::external_body]
pub struct ExUtf8Error(java_string::Utf8Error);

/// Everything that can go wrong while decoding a class file.
#[derive(Debug, Copy, Clone, PartialEq, Eq)]
#[non_exhaustive]
#[allow(inconsistent_fields)]
pub enum ClassFileError {
    BadAnnotationTag(u8),
    /// The code length must lie between 1 and 65535 inclusive.
    BadCodeSize(u32),
    BadConstantPoolIndex { index: u16, len: usize },
    BadConstantPoolIndexNoEntry(u16),
    BadConstantPoolTag(u8),
    BadConstantPoolType { expected: ConstantPoolTag, actual: ConstantPoolTag },
    BadConstantPoolTypeExpectedBootstrapMethodArgument(ConstantPoolTag),
    BadConstantPoolTypeExpectedFieldConstantValue(ConstantPoolTag),
    BadConstantPoolTypeExpectedLdcOperand(ConstantPoolTag),
    BadFrameType(u8),
    BadFrameValueTag(u8),
    BadHandleKind(u8),
    BadMagic,
    BadNewArrayType(u8),
    BadOpcode(u8),
    BadTypeAnnotationTarget(u8),
    BadWideOpcode(Opcode),
    BootstrapMethodCircularDependency,
    BootstrapMethodOutOfBounds { index: u16, len: u16 },
    CodeOffsetOutOfBounds { index: usize, len: usize },
    /// A read past the end of the class file.
    OutOfBounds { index: usize, len: usize },
    /// `tableswitch` needs `low <= high`.
    TableSwitchBoundsWrongOrder { low: i32, high: i32 },
    TooDeepAnnotationNesting,
    UnsupportedVersion(u16),
    Utf8(java_string::Utf8Error),
}

pub type ClassFileResult<T> = Result<T, ClassFileError>;

/// The deep view of a result: the view of the value, the error as it is.
pub open spec fn deep<T: DeepView>(r: ClassFileResult<T>) -> ClassFileResult<T::V> {
    match r {
        Ok(v) => Ok(v.deep_view()),
        Err(e) => Err(e),
    }
}

/// The deep view of the result of a decoding step that also returns the
/// offset at which it ended.
pub open spec fn parsed<T: DeepView>(r: ClassFileResult<(T, usize)>) -> ClassFileResult<(T::V, int)> {
    match r {
        Ok(p) => Ok((p.0.deep_view(), p.1 as int)),
        Err(e) => Err(e),
    }
}

/// The deep view of the result of a decoding step, with the offset at which
/// the step ended.
pub open spec fn ended<T: DeepView>(r: ClassFileResult<T>, end: usize) -> ClassFileResult<(T::V, int)> {
    match r {
        Ok(v) => Ok((v.deep_view(), end as int)),
        Err(e) => Err(e),
    }
}

/// The deep view of what a reader yields: nothing, an item or an error.
pub open spec fn yielded<T: DeepView>(r: Option<ClassFileResult<T>>) -> Option<ClassFileResult<T::V>> {
    match r {
        None => None,
        Some(item) => Some(deep(item)),
    }
}

} // verus!
