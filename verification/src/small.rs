//! The small containers: up to [`INLINE_CAPACITY`] bytes are stored in the
//! value itself, longer content lives in a heap buffer of exactly its length.

use vstd::prelude::*;
use vstd::slice::slice_subrange;
use vstd::string::StringSliceAdditionalSpecFns;
use vstd::utf8::{decode_utf8, encode_utf8, valid_utf8};
use vstd::utf8::group_utf8_lib;
use crate::buffer::{box_slice, vec_into_boxed_slice, write_at};
use crate::error::FromUtf8Error;
use crate::layout::{le_value, len_word, len_word_bytes, with_inline_flag};
pub use crate::layout::{IS_INLINE, LEN_MASK};
use crate::utf8::{
    encode_char, lemma_encode_concat, str_from_utf8, string_into_bytes, utf8_error_of,
};

verus! {

broadcast use group_utf8_lib;

/// Number of bytes that fit into the value itself.
pub const INLINE_CAPACITY: usize = 15;

/// Largest length a container can have: the top bit of a heap length is
/// reserved for the representation flag.
pub const MAX_CAPACITY: usize = usize::MAX / 2;

/// Content stored in the value itself: the first `len` bytes of `data`.
#[derive(Copy, Clone, Debug)]
pub struct Inline {
    pub data: [u8; INLINE_CAPACITY],
    pub len: u8,
}

/// Content stored in a heap buffer of exactly its length.
#[derive(Debug)]
pub struct Heap {
    pub data: Box<[u8]>,
}

#[derive(Debug)]
enum Repr {
    Inline(Inline),
    Heap(Heap),
}

/// A byte string that stores up to [`INLINE_CAPACITY`] bytes without a heap
/// allocation and longer content without spare capacity.
#[derive(Debug)]
pub struct SmallBytes {
    repr: Repr,
}

/// A string that stores up to [`INLINE_CAPACITY`] bytes of UTF-8 without a
/// heap allocation and longer text without spare capacity.
#[derive(Debug)]
pub struct SmallString {
    bytes: SmallBytes,
}

impl Inline {
    /// The bytes in use.
    pub open spec fn content(&self) -> Seq<u8> {
        self.data@.subrange(0, self.len as int)
    }

    /// The length fits the inline buffer.
    pub open spec fn wf(&self) -> bool {
        self.len as int <= INLINE_CAPACITY
    }

    /// The length byte as the packed layout stores it: the length with the
    /// inline flag set.
    pub fn stored_len(&self) -> (r: u8)
        requires
            self.wf(),
        ensures
            r == self.len + IS_INLINE,
            r & IS_INLINE != 0,
            r & LEN_MASK == self.len,
    {
        with_inline_flag(self.len)
    }

    /// The length word of the heap representation as read from the bytes of
    /// this value in the packed layout, where `len` is the length byte as
    /// stored.
    pub fn len_word(&self) -> (r: u64)
        ensures
            r == le_value(len_word_bytes(self.data@, self.len)),
    {
        len_word(self.data.as_slice(), self.len)
    }

    /// An inline buffer holding a copy of `s`.
    pub fn holding(s: &[u8]) -> (r: Inline)
        requires
            s@.len() <= INLINE_CAPACITY,
        ensures
            r.wf(),
            r.content() == s@,
    {
        Inline { data: write_at([0u8; INLINE_CAPACITY], 0, s), len: s.len() as u8 }
    }
}

impl Heap {
    /// The length is in range.
    pub open spec fn wf(&self) -> bool {
        self.data@.len() <= MAX_CAPACITY
    }
}

impl View for SmallBytes {
    type V = Seq<u8>;

    closed spec fn view(&self) -> Seq<u8> {
        match self.repr {
            Repr::Inline(inline) => inline.content(),
            Repr::Heap(heap) => heap.data@,
        }
    }
}

impl SmallBytes {
    /// The representation invariant: an inline length is at most
    /// [`INLINE_CAPACITY`], a heap length at most [`MAX_CAPACITY`].
    #[verifier::type_invariant]
    pub closed spec fn wf(&self) -> bool {
        match self.repr {
            Repr::Inline(inline) => inline.wf(),
            Repr::Heap(heap) => heap.wf(),
        }
    }

    /// Whether the content is stored in the value itself.
    pub closed spec fn spec_is_inline(&self) -> bool {
        self.repr is Inline
    }

    /// The number of bytes held.
    pub open spec fn spec_len(&self) -> nat {
        self@.len()
    }

    /// In every valid container the length is in range, and inline content
    /// fits the inline buffer.
    pub proof fn lemma_wf_bounds(&self)
        requires
            self.wf(),
        ensures
            self.spec_len() <= MAX_CAPACITY,
            self.spec_is_inline() ==> self.spec_len() <= INLINE_CAPACITY,
    {
    }

    /// An empty, inline container.
    pub fn new() -> (r: SmallBytes)
        ensures
            r.wf(),
            r@ == Seq::<u8>::empty(),
            r.spec_is_inline(),
    {
        let inline = Inline { data: [0u8; INLINE_CAPACITY], len: 0 };
        assert(inline.content() =~= Seq::<u8>::empty());
        SmallBytes { repr: Repr::Inline(inline) }
    }

    /// A container holding a copy of `s`: inline if `s` fits the inline
    /// buffer, else in a heap buffer of exactly its length.
    pub fn from(s: &[u8]) -> (r: SmallBytes)
        requires
            s@.len() <= MAX_CAPACITY,
        ensures
            r.wf(),
            r@ == s@,
            r.spec_is_inline() == (s@.len() <= INLINE_CAPACITY),
    {
        if s.len() > INLINE_CAPACITY {
            SmallBytes { repr: Repr::Heap(Heap { data: box_slice(s) }) }
        } else {
            SmallBytes { repr: Repr::Inline(Inline::holding(s)) }
        }
    }

    /// A container holding the elements of `v`: copied inline if they fit
    /// the inline buffer, else in the buffer of `v` cut down to its length.
    pub fn from_vec(v: Vec<u8>) -> (r: SmallBytes)
        requires
            v@.len() <= MAX_CAPACITY,
        ensures
            r.wf(),
            r@ == v@,
            r.spec_is_inline() == (v@.len() <= INLINE_CAPACITY),
    {
        if v.len() <= INLINE_CAPACITY {
            SmallBytes::from(v.as_slice())
        } else {
            SmallBytes { repr: Repr::Heap(Heap { data: vec_into_boxed_slice(v) }) }
        }
    }

    /// The content as a vector: the heap buffer itself, or a copy of inline
    /// content.
    pub fn into_vec(self) -> (r: Vec<u8>)
        ensures
            r@ == self@,
    {
        proof {
            use_type_invariant(&self);
        }
        match self.repr {
            Repr::Inline(inline) => {
                let mut buf: Vec<u8> = Vec::with_capacity(inline.len as usize);
                buf.extend_from_slice(slice_subrange(inline.data.as_slice(), 0, inline.len as usize));
                assert(buf@ =~= inline.content());
                buf
            },
            Repr::Heap(heap) => heap.data.into_vec(),
        }
    }

    /// Whether the content is stored in the value itself.
    #[verifier::when_used_as_spec(spec_is_inline)]
    pub fn is_inline(&self) -> (r: bool)
        ensures
            r == self.spec_is_inline(),
    {
        match &self.repr {
            Repr::Inline(_) => true,
            Repr::Heap(_) => false,
        }
    }

    /// The number of bytes held.
    pub fn len(&self) -> (r: usize)
        ensures
            r == self.spec_len(),
    {
        self.as_slice().len()
    }

    /// The content as a slice.
    pub fn as_slice(&self) -> (r: &[u8])
        ensures
            r@ == self@,
    {
        proof {
            use_type_invariant(self);
        }
        match &self.repr {
            Repr::Inline(inline) => slice_subrange(inline.data.as_slice(), 0, inline.len as usize),
            Repr::Heap(heap) => &heap.data,
        }
    }

    /// Wraps an inline buffer.
    pub fn from_inline(inline: Inline) -> (r: SmallBytes)
        requires
            inline.wf(),
        ensures
            r.wf(),
            r@ == inline.content(),
            r.spec_is_inline(),
    {
        SmallBytes { repr: Repr::Inline(inline) }
    }

    /// Wraps a heap buffer.
    pub fn from_heap(heap: Heap) -> (r: SmallBytes)
        requires
            heap.wf(),
        ensures
            r.wf(),
            r@ == heap.data@,
            !r.spec_is_inline(),
    {
        SmallBytes { repr: Repr::Heap(heap) }
    }

    /// Unwraps the inline buffer of an inline container.
    pub fn to_inline(self) -> (r: Inline)
        requires
            self.spec_is_inline(),
        ensures
            r.wf(),
            r.content() == self@,
    {
        proof {
            use_type_invariant(&self);
        }
        match self.repr {
            Repr::Inline(inline) => inline,
            Repr::Heap(_) => vstd::pervasive::unreached(),
        }
    }

    /// Unwraps the heap buffer of a heap-resident container.
    pub fn to_heap(self) -> (r: Heap)
        requires
            !self.spec_is_inline(),
        ensures
            r.wf(),
            r.data@ == self@,
    {
        proof {
            use_type_invariant(&self);
        }
        match self.repr {
            Repr::Inline(_) => vstd::pervasive::unreached(),
            Repr::Heap(heap) => heap,
        }
    }
}

impl Clone for SmallBytes {
    /// A copy with a buffer of its own, in the same representation.
    fn clone(&self) -> (r: SmallBytes)
        ensures
            r.wf(),
            r@ == self@,
            r.spec_is_inline() == self.spec_is_inline(),
    {
        proof {
            use_type_invariant(self);
        }
        match &self.repr {
            Repr::Inline(inline) => SmallBytes { repr: Repr::Inline(*inline) },
            Repr::Heap(heap) => SmallBytes { repr: Repr::Heap(Heap { data: box_slice(&heap.data) }) },
        }
    }
}

impl FromUtf8Error<SmallBytes> {
    /// The bytes that were to be converted.
    pub fn as_bytes(&self) -> (r: &[u8])
        ensures
            r@ == self.spec_bytes()@,
    {
        self.bytes_ref().as_slice()
    }
}

impl View for SmallString {
    type V = Seq<char>;

    closed spec fn view(&self) -> Seq<char> {
        decode_utf8(self.bytes@)
    }
}

impl SmallString {
    /// The bytes are a valid container and valid UTF-8.
    #[verifier::type_invariant]
    pub closed spec fn wf(&self) -> bool {
        self.bytes.wf() && valid_utf8(self.bytes@)
    }

    /// The UTF-8 encoding of the text.
    pub closed spec fn spec_bytes(&self) -> Seq<u8> {
        self.bytes@
    }

    /// The number of bytes held.
    pub open spec fn spec_len(&self) -> nat {
        self.spec_bytes().len()
    }

    /// Whether the content is stored in the value itself.
    pub closed spec fn spec_is_inline(&self) -> bool {
        self.bytes.spec_is_inline()
    }

    /// In every valid string the bytes are the UTF-8 encoding of the text,
    /// and their number is in range.
    pub proof fn lemma_wf_text(&self)
        requires
            self.wf(),
        ensures
            valid_utf8(self.spec_bytes()),
            self@ == decode_utf8(self.spec_bytes()),
            self.spec_bytes() == encode_utf8(self@),
            self.spec_len() <= MAX_CAPACITY,
            self.spec_is_inline() ==> self.spec_len() <= INLINE_CAPACITY,
    {
        self.bytes.lemma_wf_bounds();
    }

    /// An empty, inline string.
    pub fn new() -> (r: SmallString)
        ensures
            r.wf(),
            r.spec_bytes() == Seq::<u8>::empty(),
            r@ == Seq::<char>::empty(),
            r.spec_is_inline(),
    {
        SmallString { bytes: SmallBytes::new() }
    }

    /// Turns bytes into a string if they are valid UTF-8; if not, hands them
    /// back unchanged together with the validation error.
    pub fn from_utf8(bytes: SmallBytes) -> (r: Result<SmallString, FromUtf8Error<SmallBytes>>)
        ensures
            r is Ok <==> valid_utf8(bytes@),
            r matches Ok(s) ==> s.wf() && s.spec_bytes() == bytes@ && s.spec_is_inline()
                == bytes.spec_is_inline(),
            r matches Err(e) ==> e.spec_bytes() == bytes && e.spec_error() == utf8_error_of(bytes@),
    {
        proof {
            use_type_invariant(&bytes);
        }
        match str_from_utf8(bytes.as_slice()) {
            Ok(_) => Ok(SmallString { bytes }),
            Err(error) => Err(FromUtf8Error::new(bytes, error)),
        }
    }

    /// A string holding a copy of `s`: inline if `s` fits the inline
    /// buffer, else in a heap buffer of exactly its length.
    pub fn from(s: &str) -> (r: SmallString)
        requires
            s.spec_bytes().len() <= MAX_CAPACITY,
        ensures
            r.wf(),
            r.spec_bytes() == s.spec_bytes(),
            r@ == s@,
            r.spec_is_inline() == (s.spec_bytes().len() <= INLINE_CAPACITY),
    {
        SmallString { bytes: SmallBytes::from(s.as_bytes()) }
    }

    /// A string holding the text of `s`: copied inline if it fits the inline
    /// buffer, else in the buffer of `s` cut down to its length.
    pub fn from_string(s: String) -> (r: SmallString)
        requires
            encode_utf8(s@).len() <= MAX_CAPACITY,
        ensures
            r.wf(),
            r.spec_bytes() == encode_utf8(s@),
            r@ == s@,
            r.spec_is_inline() == (encode_utf8(s@).len() <= INLINE_CAPACITY),
    {
        SmallString { bytes: SmallBytes::from_vec(string_into_bytes(s)) }
    }

    /// A string holding the one character `c`.
    pub fn from_char(c: char) -> (r: SmallString)
        ensures
            r.wf(),
            r.spec_bytes() == encode_utf8(seq![c]),
            r@ == seq![c],
            r.spec_is_inline(),
    {
        let mut scratch = [0u8; 4];
        let s = encode_char(c, &mut scratch);
        proof {
            crate::tiny::lemma_encoded_char_len(c);
        }
        SmallString::from(s)
    }

    /// A string holding the characters of `chars` in order. They are
    /// gathered in an inline buffer while they fit; from the first one that
    /// does not, the text is built in a growable buffer instead and then cut
    /// down to its length.
    pub fn from_iter(chars: &[char]) -> (r: SmallString)
        requires
            encode_utf8(chars@).len() <= MAX_CAPACITY,
        ensures
            r.wf(),
            r.spec_bytes() == encode_utf8(chars@),
            r@ == chars@,
            r.spec_is_inline() == (encode_utf8(chars@).len() <= INLINE_CAPACITY),
    {
        let mut buf = [0u8; INLINE_CAPACITY];
        let mut pos: usize = 0;
        let mut i: usize = 0;
        while i < chars.len()
            invariant
                i <= chars@.len(),
                pos <= INLINE_CAPACITY,
                buf@.subrange(0, pos as int) == encode_utf8(chars@.subrange(0, i as int)),
                encode_utf8(chars@).len() <= MAX_CAPACITY,
            decreases chars@.len() - i,
        {
            let c = chars[i];
            let mut scratch = [0u8; 4];
            let encoded = encode_char(c, &mut scratch).as_bytes();
            proof {
                crate::tiny::lemma_encoded_char_len(c);
                lemma_encode_concat(chars@.subrange(0, i as int), seq![c]);
                assert(chars@.subrange(0, i as int) + seq![c] =~= chars@.subrange(0, i + 1));
            }
            if pos + encoded.len() > INLINE_CAPACITY {
                let mut text: Vec<u8> = Vec::with_capacity(32);
                text.extend_from_slice(slice_subrange(buf.as_slice(), 0, pos));
                assert(text@ =~= encode_utf8(chars@.subrange(0, i as int)));
                let overflow_at = i;
                while i < chars.len()
                    invariant
                        overflow_at <= i <= chars@.len(),
                        text@ == encode_utf8(chars@.subrange(0, i as int)),
                        i > overflow_at ==> text@.len() > INLINE_CAPACITY,
                        text@.len() + encode_utf8(seq![chars@[overflow_at as int]]).len()
                            > INLINE_CAPACITY,
                    decreases chars@.len() - i,
                {
                    let c = chars[i];
                    let mut scratch = [0u8; 4];
                    let encoded = encode_char(c, &mut scratch).as_bytes();
                    proof {
                        lemma_encode_concat(chars@.subrange(0, i as int), seq![c]);
                        assert(chars@.subrange(0, i as int) + seq![c] =~= chars@.subrange(
                            0,
                            i + 1,
                        ));
                    }
                    let ghost before = text@;
                    text.extend_from_slice(encoded);
                    assert(text@ =~= before + encoded@);
                    i += 1;
                }
                assert(chars@.subrange(0, i as int) =~= chars@);
                return SmallString { bytes: SmallBytes::from_vec(text) };
            }
            let ghost before = buf@;
            buf = write_at(buf, pos, encoded);
            assert(buf@.subrange(0, pos + encoded@.len()) =~= before.subrange(0, pos as int)
                + encoded@) by {
                assert(buf@.subrange(0, pos + encoded@.len()) =~= buf@.subrange(0, pos as int)
                    + buf@.subrange(pos as int, pos + encoded@.len()));
            }
            pos += encoded.len();
            i += 1;
        }
        assert(chars@.subrange(0, i as int) =~= chars@);
        SmallString { bytes: SmallBytes::from_inline(Inline { data: buf, len: pos as u8 }) }
    }

    /// The length of the text in bytes.
    pub fn len(&self) -> (r: usize)
        ensures
            r == self.spec_len(),
    {
        self.bytes.len()
    }

    /// Whether the text is stored in the value itself.
    #[verifier::when_used_as_spec(spec_is_inline)]
    pub fn is_inline(&self) -> (r: bool)
        ensures
            r == self.spec_is_inline(),
    {
        self.bytes.is_inline()
    }

    /// The text as UTF-8 bytes.
    pub fn as_bytes(&self) -> (r: &[u8])
        ensures
            r@ == self.spec_bytes(),
    {
        self.bytes.as_slice()
    }

    /// The text as a string slice.
    pub fn as_str(&self) -> (r: &str)
        ensures
            r.spec_bytes() == self.spec_bytes(),
            r@ == self@,
    {
        proof {
            use_type_invariant(self);
        }
        match str_from_utf8(self.bytes.as_slice()) {
            Ok(s) => s,
            Err(_) => vstd::pervasive::unreached(),
        }
    }

    /// The text as an owned string.
    pub fn into_string(self) -> (r: String)
        ensures
            r@ == self@,
    {
        self.as_str().to_owned()
    }

    /// The text as a vector of UTF-8 bytes.
    pub fn into_bytes(self) -> (r: Vec<u8>)
        ensures
            r@ == self.spec_bytes(),
    {
        self.bytes.into_vec()
    }
}

impl Clone for SmallString {
    /// A copy with a buffer of its own, in the same representation.
    fn clone(&self) -> (r: SmallString)
        ensures
            r.wf(),
            r.spec_bytes() == self.spec_bytes(),
            r@ == self@,
            r.spec_is_inline() == self.spec_is_inline(),
    {
        proof {
            use_type_invariant(self);
        }
        SmallString { bytes: self.bytes.clone() }
    }
}

} // verus!
