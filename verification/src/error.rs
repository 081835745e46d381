//! The error of building a string container from bytes that are not UTF-8.

use vstd::prelude::*;
use core::str::Utf8Error;
use crate::ibytes::IBytes;

verus! {

/// A failed conversion from bytes to text. It keeps the bytes that were
/// handed in, so that nothing is lost, and the validation error.
#[derive(Debug)]
pub struct FromUtf8Error<T> {
    bytes: T,
    error: Utf8Error,
}

impl<T> FromUtf8Error<T> {
    /// The container that was handed in.
    pub closed spec fn spec_bytes(&self) -> T {
        self.bytes
    }

    /// The validation error.
    pub closed spec fn spec_error(&self) -> Utf8Error {
        self.error
    }

    pub(crate) fn new(bytes: T, error: Utf8Error) -> (r: Self)
        ensures
            r.spec_bytes() == bytes,
            r.spec_error() == error,
    {
        FromUtf8Error { bytes, error }
    }

    pub(crate) fn bytes_ref(&self) -> (r: &T)
        ensures
            *r == self.spec_bytes(),
    {
        &self.bytes
    }

    /// Hands back the container that was to be converted.
    pub fn into_bytes(self) -> (r: T)
        ensures
            r == self.spec_bytes(),
    {
        self.bytes
    }

    /// The validation error, which tells where the bytes stop being UTF-8.
    pub fn utf8_error(&self) -> (r: Utf8Error)
        ensures
            r == self.spec_error(),
    {
        self.error
    }
}

impl FromUtf8Error<IBytes> {
    /// The bytes that were to be converted.
    pub fn as_bytes(&self) -> (r: &[u8])
        ensures
            r@ == self.spec_bytes()@,
    {
        self.bytes.as_slice()
    }
}

} // verus!
