//! Limits of the reader.

use vstd::prelude::*;

verus! {

/// The newest major version of the class file format that the reader takes.
pub const LATEST_MAJOR_VERSION: u16 = 69;

/// How deep annotations and arrays may nest inside the value of an element.
pub const MAX_ANNOTATION_NESTING: u16 = 128;

/// The first four bytes of every class file.
pub const MAGIC: u32 = 0xcafebabe;

} // verus!
