//! The containers as slices: dereferencing and borrowing go to the content,
//! so that everything a slice offers, range indexing included, works on a
//! container as it does on the slice of its content.

use vstd::prelude::*;
use vstd::string::StringSliceAdditionalSpecFns;
use core::ops::Deref;
use crate::ibytes::IBytes;
use crate::istring::IString;
use crate::small::{SmallBytes, SmallString};
use crate::tiny::{TinyBytes, TinyString};

verus! {

/// The bytes of a slice.
pub open spec fn slice_bytes(s: &[u8]) -> Seq<u8> {
    s@
}

/// The UTF-8 encoding of a string slice.
pub open spec fn text_bytes(s: &str) -> Seq<u8> {
    s.spec_bytes()
}

impl Deref for IBytes {
    type Target = [u8];

    fn deref(&self) -> (r: &[u8])
        ensures
            r@ == self@,
    {
        self.as_slice()
    }
}

impl AsRef<[u8]> for IBytes {
    fn as_ref(&self) -> (r: &[u8])
        ensures
            r@ == self@,
    {
        self.as_slice()
    }
}

impl Deref for SmallBytes {
    type Target = [u8];

    fn deref(&self) -> (r: &[u8])
        ensures
            r@ == self@,
    {
        self.as_slice()
    }
}

impl AsRef<[u8]> for SmallBytes {
    fn as_ref(&self) -> (r: &[u8])
        ensures
            r@ == self@,
    {
        self.as_slice()
    }
}

impl Deref for TinyBytes {
    type Target = [u8];

    fn deref(&self) -> (r: &[u8])
        ensures
            r@ == self@,
    {
        self.as_bytes()
    }
}

impl AsRef<[u8]> for TinyBytes {
    fn as_ref(&self) -> (r: &[u8])
        ensures
            r@ == self@,
    {
        self.as_bytes()
    }
}

impl Deref for IString {
    type Target = str;

    fn deref(&self) -> (r: &str)
        ensures
            r.spec_bytes() == self.spec_bytes(),
            r@ == self@,
    {
        self.as_str()
    }
}

impl AsRef<str> for IString {
    fn as_ref(&self) -> (r: &str)
        ensures
            text_bytes(r) == self.spec_bytes(),
    {
        self.as_str()
    }
}

impl AsRef<[u8]> for IString {
    fn as_ref(&self) -> (r: &[u8])
        ensures
            slice_bytes(r) == self.spec_bytes(),
    {
        self.as_bytes()
    }
}

impl Deref for SmallString {
    type Target = str;

    fn deref(&self) -> (r: &str)
        ensures
            r.spec_bytes() == self.spec_bytes(),
            r@ == self@,
    {
        self.as_str()
    }
}

impl AsRef<str> for SmallString {
    fn as_ref(&self) -> (r: &str)
        ensures
            text_bytes(r) == self.spec_bytes(),
    {
        self.as_str()
    }
}

impl AsRef<[u8]> for SmallString {
    fn as_ref(&self) -> (r: &[u8])
        ensures
            slice_bytes(r) == self.spec_bytes(),
    {
        self.as_bytes()
    }
}

impl Deref for TinyString {
    type Target = str;

    fn deref(&self) -> (r: &str)
        ensures
            r.spec_bytes() == self.spec_bytes(),
            r@ == self@,
    {
        self.as_str()
    }
}

impl AsRef<str> for TinyString {
    fn as_ref(&self) -> (r: &str)
        ensures
            text_bytes(r) == self.spec_bytes(),
    {
        self.as_str()
    }
}

impl AsRef<[u8]> for TinyString {
    fn as_ref(&self) -> (r: &[u8])
        ensures
            slice_bytes(r) == self.spec_bytes(),
    {
        self.as_bytes()
    }
}

impl core::borrow::Borrow<[u8]> for IBytes {
    fn borrow(&self) -> (r: &[u8])
        ensures
            slice_bytes(r) == self@,
    {
        self.as_slice()
    }
}

impl core::borrow::Borrow<[u8]> for SmallBytes {
    fn borrow(&self) -> (r: &[u8])
        ensures
            slice_bytes(r) == self@,
    {
        self.as_slice()
    }
}

impl core::borrow::Borrow<[u8]> for TinyBytes {
    fn borrow(&self) -> (r: &[u8])
        ensures
            slice_bytes(r) == self@,
    {
        self.as_bytes()
    }
}

impl core::borrow::Borrow<str> for IString {
    fn borrow(&self) -> (r: &str)
        ensures
            text_bytes(r) == self.spec_bytes(),
    {
        self.as_str()
    }
}

impl core::borrow::Borrow<str> for SmallString {
    fn borrow(&self) -> (r: &str)
        ensures
            text_bytes(r) == self.spec_bytes(),
    {
        self.as_str()
    }
}

impl core::borrow::Borrow<str> for TinyString {
    fn borrow(&self) -> (r: &str)
        ensures
            text_bytes(r) == self.spec_bytes(),
    {
        self.as_str()
    }
}

} // verus!
