//! The tiny containers: at most [`TINY_CAPACITY`] bytes, always stored in the
//! value itself, never changed after construction.

use vstd::prelude::*;
use vstd::slice::slice_subrange;
use vstd::string::StringSliceAdditionalSpecFns;
use vstd::utf8::{decode_utf8, encode_utf8, valid_utf8};
use vstd::utf8::group_utf8_lib;
use crate::utf8::{encode_char, str_from_utf8};

verus! {

broadcast use group_utf8_lib;

/// Number of bytes a tiny container can hold.
pub const TINY_CAPACITY: usize = 7;

/// At most seven bytes, stored by value.
#[derive(Copy, Clone, Debug)]
pub struct TinyBytes {
    len: u8,
    buf: [u8; 7],
}

/// At most seven bytes of UTF-8 text, stored by value.
#[derive(Copy, Clone, Debug)]
pub struct TinyString(TinyBytes);

impl View for TinyBytes {
    type V = Seq<u8>;

    closed spec fn view(&self) -> Seq<u8> {
        self.buf@.subrange(0, self.len as int)
    }
}

impl TinyBytes {
    /// The length fits the buffer.
    #[verifier::type_invariant]
    pub closed spec fn wf(&self) -> bool {
        self.len as int <= TINY_CAPACITY
    }

    /// A valid value holds at most [`TINY_CAPACITY`] bytes.
    pub proof fn lemma_wf_len(&self)
        requires
            self.wf(),
        ensures
            self@.len() <= TINY_CAPACITY,
    {
    }

    /// A container holding a copy of `s`, or nothing if `s` is longer than
    /// [`TINY_CAPACITY`] bytes.
    pub fn new(s: &[u8]) -> (r: Option<TinyBytes>)
        ensures
            r is Some <==> s@.len() <= TINY_CAPACITY,
            r matches Some(t) ==> t.wf() && t@ == s@,
    {
        let len = s.len();
        if len >= 8 {
            return None;
        }
        let mut buf = [0u8; 7];
        let mut i: usize = 0;
        while i < len
            invariant
                len == s@.len(),
                len < 8,
                i <= len,
                forall|k: int| 0 <= k < i ==> buf@[k] == s@[k],
            decreases len - i,
        {
            buf[i] = s[i];
            i += 1;
        }
        let t = TinyBytes { len: len as u8, buf };
        assert(t@ =~= s@);
        Some(t)
    }

    /// The content as a slice.
    pub fn as_bytes(&self) -> (r: &[u8])
        ensures
            r@ == self@,
    {
        proof {
            use_type_invariant(self);
        }
        slice_subrange(self.buf.as_slice(), 0, self.len as usize)
    }

    /// The number of bytes held.
    pub fn len(&self) -> (r: usize)
        ensures
            r == self@.len(),
            r <= TINY_CAPACITY,
    {
        proof {
            use_type_invariant(self);
        }
        self.len as usize
    }
}

impl View for TinyString {
    type V = Seq<char>;

    closed spec fn view(&self) -> Seq<char> {
        decode_utf8(self.0@)
    }
}

impl TinyString {
    /// The content is valid UTF-8.
    #[verifier::type_invariant]
    pub closed spec fn wf(&self) -> bool {
        self.0.wf() && valid_utf8(self.0@)
    }

    /// The UTF-8 encoding of the text.
    pub closed spec fn spec_bytes(&self) -> Seq<u8> {
        self.0@
    }

    /// A valid value holds at most [`TINY_CAPACITY`] bytes, which are the
    /// UTF-8 encoding of its text.
    pub proof fn lemma_wf_text(&self)
        requires
            self.wf(),
        ensures
            self.spec_bytes().len() <= TINY_CAPACITY,
            valid_utf8(self.spec_bytes()),
            self@ == decode_utf8(self.spec_bytes()),
            self.spec_bytes() == encode_utf8(self@),
    {
    }

    /// A container holding a copy of `s`, or nothing if `s` is longer than
    /// [`TINY_CAPACITY`] bytes.
    pub fn new(s: &str) -> (r: Option<TinyString>)
        ensures
            r is Some <==> s.spec_bytes().len() <= TINY_CAPACITY,
            r matches Some(t) ==> t.wf() && t.spec_bytes() == s.spec_bytes() && t@ == s@,
    {
        match TinyBytes::new(s.as_bytes()) {
            Some(b) => Some(TinyString(b)),
            None => None,
        }
    }

    /// A container holding the one character `value`.
    pub fn from_char(value: char) -> (r: TinyString)
        ensures
            r.wf(),
            r@ == seq![value],
            r.spec_bytes() == encode_utf8(seq![value]),
    {
        let mut scratch = [0u8; 4];
        let s = encode_char(value, &mut scratch);
        proof {
            lemma_encoded_char_len(value);
        }
        match TinyString::new(s) {
            Some(t) => t,
            None => vstd::pervasive::unreached(),
        }
    }

    /// The content as UTF-8 bytes.
    pub fn as_bytes(&self) -> (r: &[u8])
        ensures
            r@ == self.spec_bytes(),
    {
        self.0.as_bytes()
    }

    /// The content as a string slice.
    pub fn as_str(&self) -> (r: &str)
        ensures
            r.spec_bytes() == self.spec_bytes(),
            r@ == self@,
    {
        proof {
            use_type_invariant(self);
        }
        match str_from_utf8(self.0.as_bytes()) {
            Ok(s) => s,
            Err(_) => vstd::pervasive::unreached(),
        }
    }
}

/// One character takes at most four bytes in UTF-8.
pub proof fn lemma_encoded_char_len(ch: char)
    ensures
        1 <= encode_utf8(seq![ch]).len() <= 4,
{
    let chars = seq![ch];
    assert(chars.drop_first() =~= Seq::<char>::empty());
    assert(encode_utf8(chars.drop_first()) =~= Seq::<u8>::empty()) by {
        reveal_with_fuel(encode_utf8, 1);
    }
    assert(encode_utf8(chars) =~= vstd::utf8::encode_scalar(ch as u32)) by {
        reveal_with_fuel(encode_utf8, 2);
    }
}

} // verus!
