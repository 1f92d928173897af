//! Strings of the class file: Java strings held as their semi-valid UTF-8 bytes.

use crate::error::{ClassFileError, ClassFileResult};
use vstd::prelude::*;

verus! {

/// A Java string, held as the bytes of its semi-valid UTF-8 form (UTF-8 in
/// which lone surrogate code points may occur).
#[derive(Debug, PartialEq, Eq, PartialOrd, Ord, Hash, Default)]
pub struct JavaText {
    pub bytes: Vec<u8>,
}

impl View for JavaText {
    type V = Seq<u8>;

    open spec fn view(&self) -> Seq<u8> {
        self.bytes@
    }
}

impl DeepView for JavaText {
    type V = Seq<u8>;

    open spec fn deep_view(&self) -> Seq<u8> {
        self.bytes@
    }
}

impl Clone for JavaText {
    fn clone(&self) -> (r: Self)
        ensures
            r@ == self@,
    {
        JavaText { bytes: self.bytes.clone() }
    }
}

/// What decoding `bytes` from modified UTF-8 gives: the bytes of the decoded
/// string in semi-valid UTF-8, or the decoder's error.
pub uninterp spec fn modified_utf8_decoding(bytes: Seq<u8>) -> Result<Seq<u8>, java_string::Utf8Error>;

/// Calls `java_string::JavaStr::from_modified_utf8` and copies the bytes of the
/// string it returns. The decoder's result depends on the input bytes alone;
/// the contract gives that result its name and claims nothing else of it.
#[verifier::external_body]
fn decode_modified_utf8(bytes: &[u8]) -> (r: Result<Vec<u8>, java_string::Utf8Error>)
    ensures
        r is Ok ==> modified_utf8_decoding(bytes@) == Ok::<Seq<u8>, java_string::Utf8Error>(r->Ok_0@),
        r is Err ==> modified_utf8_decoding(bytes@) == Err::<Seq<u8>, java_string::Utf8Error>(r->Err_0),
{
    match java_string::JavaStr::from_modified_utf8(bytes) {
        Ok(text) => Ok(text.as_bytes().to_vec()),
        Err(e) => Err(e),
    }
}

/// The text that a decoding stands for: the decoded bytes, or the decoder's
/// error as a class file error.
pub open spec fn text_of_decoding(decoded: Result<Seq<u8>, java_string::Utf8Error>) -> ClassFileResult<Seq<u8>> {
    match decoded {
        Ok(bytes) => Ok(bytes),
        Err(e) => Err(ClassFileError::Utf8(e)),
    }
}

/// The text that `bytes` hold in modified UTF-8.
pub open spec fn spec_text(bytes: Seq<u8>) -> ClassFileResult<Seq<u8>> {
    text_of_decoding(modified_utf8_decoding(bytes))
}

impl JavaText {
    /// Wraps the outcome of a decoding.
    pub fn from_decoding(decoded: Result<Vec<u8>, java_string::Utf8Error>) -> (r: ClassFileResult<JavaText>)
        ensures
            decoded is Ok ==> r is Ok && r->Ok_0@ == decoded->Ok_0@,
            decoded is Err ==> r == Err::<JavaText, ClassFileError>(ClassFileError::Utf8(decoded->Err_0)),
    {
        match decoded {
            Ok(bytes) => Ok(JavaText { bytes }),
            Err(e) => Err(ClassFileError::Utf8(e)),
        }
    }

    /// Decodes modified UTF-8.
    pub fn from_modified_utf8(bytes: &[u8]) -> (r: ClassFileResult<JavaText>)
        ensures
            crate::error::deep(r) == spec_text(bytes@),
    {
        JavaText::from_decoding(decode_modified_utf8(bytes))
    }

    /// The empty string.
    pub fn empty() -> (r: JavaText)
        ensures
            r@ == Seq::<u8>::empty(),
    {
        JavaText { bytes: Vec::new() }
    }
}

} // verus!
