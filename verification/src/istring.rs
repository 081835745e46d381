//! The base string container: [`IBytes`] that always holds valid UTF-8.

use vstd::prelude::*;
use vstd::string::StringSliceAdditionalSpecFns;
use vstd::utf8::{decode_utf8, encode_utf8, is_char_boundary, valid_utf8};
use vstd::utf8::group_utf8_lib;
use crate::error::FromUtf8Error;
use crate::growth::{lemma_next_pow2_monotone, next_pow2};
use crate::ibytes::{grown_capacity, IBytes, INLINE_CAPACITY, MAX_CAPACITY};
use crate::utf8::{
    encode_char, lemma_decode_concat, lemma_encode_concat, str_from_utf8, string_into_bytes,
    utf8_error_of,
};

verus! {

broadcast use group_utf8_lib;

/// A growable string that stores up to [`INLINE_CAPACITY`] bytes of UTF-8
/// without a heap allocation.
#[derive(Debug)]
pub struct IString {
    pub(crate) bytes: IBytes,
}

impl View for IString {
    type V = Seq<char>;

    closed spec fn view(&self) -> Seq<char> {
        decode_utf8(self.bytes@)
    }
}

impl IString {
    /// The bytes are a valid container and valid UTF-8.
    #[verifier::type_invariant]
    pub closed spec fn wf(&self) -> bool {
        self.bytes.wf() && valid_utf8(self.bytes@)
    }

    /// The UTF-8 encoding of the text.
    pub closed spec fn spec_bytes(&self) -> Seq<u8> {
        self.bytes@
    }

    /// The number of bytes held.
    pub open spec fn spec_len(&self) -> nat {
        self.spec_bytes().len()
    }

    /// The number of bytes the container has room for.
    pub closed spec fn spec_capacity(&self) -> nat {
        self.bytes.spec_capacity()
    }

    /// Whether the content is stored in the value itself.
    pub closed spec fn spec_is_inline(&self) -> bool {
        self.bytes.spec_is_inline()
    }

    /// In every valid string the bytes are the UTF-8 encoding of the text
    /// and fit the capacity, which is in range.
    pub proof fn lemma_wf_text(&self)
        requires
            self.wf(),
        ensures
            valid_utf8(self.spec_bytes()),
            self@ == decode_utf8(self.spec_bytes()),
            self.spec_bytes() == encode_utf8(self@),
            self.spec_len() <= self.spec_capacity() <= MAX_CAPACITY,
            self.spec_is_inline() ==> self.spec_capacity() == INLINE_CAPACITY,
    {
        self.bytes.lemma_wf_bounds();
    }

    /// Takes the bytes out and leaves an empty string behind.
    fn take_bytes(&mut self) -> (r: IBytes)
        ensures
            r == old(self).bytes,
            final(self).bytes@ == Seq::<u8>::empty(),
    {
        let mut bytes = IBytes::new();
        core::mem::swap(&mut self.bytes, &mut bytes);
        bytes
    }

    /// An empty, inline string.
    pub fn new() -> (r: IString)
        ensures
            r.wf(),
            r.spec_bytes() == Seq::<u8>::empty(),
            r@ == Seq::<char>::empty(),
            r.spec_is_inline(),
            r.spec_capacity() == INLINE_CAPACITY,
    {
        IString { bytes: IBytes::new() }
    }

    /// An empty string with room for `capacity` bytes: inline if they fit
    /// the inline buffer, else on the heap with exactly that capacity.
    pub fn with_capacity(capacity: usize) -> (r: IString)
        requires
            capacity < MAX_CAPACITY,
        ensures
            r.wf(),
            r.spec_bytes() == Seq::<u8>::empty(),
            r@ == Seq::<char>::empty(),
            r.spec_is_inline() == (capacity <= INLINE_CAPACITY),
            r.spec_capacity() == if capacity <= INLINE_CAPACITY {
                INLINE_CAPACITY as nat
            } else {
                capacity as nat
            },
    {
        IString { bytes: IBytes::with_capacity(capacity) }
    }

    /// The number of bytes the string can hold without reallocating.
    pub fn capacity(&self) -> (r: usize)
        ensures
            r == self.spec_capacity(),
            r >= self.spec_len(),
    {
        self.bytes.capacity()
    }

    /// The length of the text in bytes.
    pub fn len(&self) -> (r: usize)
        ensures
            r == self.spec_len(),
    {
        self.bytes.len()
    }

    /// Whether the text is stored in the value itself.
    #[verifier::when_used_as_spec(spec_is_inline)]
    pub fn is_inline(&self) -> (r: bool)
        ensures
            r == self.spec_is_inline(),
    {
        self.bytes.is_inline()
    }

    /// The text as UTF-8 bytes.
    pub fn as_bytes(&self) -> (r: &[u8])
        ensures
            r@ == self.spec_bytes(),
    {
        self.bytes.as_slice()
    }

    /// The text as a string slice.
    pub fn as_str(&self) -> (r: &str)
        ensures
            r.spec_bytes() == self.spec_bytes(),
            r@ == self@,
    {
        proof {
            use_type_invariant(self);
        }
        match str_from_utf8(self.bytes.as_slice()) {
            Ok(s) => s,
            Err(_) => vstd::pervasive::unreached(),
        }
    }

    /// Moves inline text to a heap buffer of capacity `cap`. A string that
    /// is on the heap already is left as it is.
    pub fn move_to_heap(&mut self, cap: usize)
        requires
            old(self).spec_is_inline() ==> old(self).spec_len() <= cap < MAX_CAPACITY,
        ensures
            final(self).wf(),
            final(self).spec_bytes() == old(self).spec_bytes(),
            final(self)@ == old(self)@,
            !final(self).spec_is_inline(),
            final(self).spec_capacity() == if old(self).spec_is_inline() {
                cap as nat
            } else {
                old(self).spec_capacity()
            },
    {
        proof {
            use_type_invariant(&*self);
        }
        let mut bytes = self.take_bytes();
        bytes.move_to_heap(cap);
        self.bytes = bytes;
    }

    /// Returns text that fits the inline buffer to it and releases the heap
    /// buffer; longer text keeps a heap buffer whose capacity is cut down to
    /// the length.
    pub fn shrink(&mut self)
        ensures
            final(self).wf(),
            final(self).spec_bytes() == old(self).spec_bytes(),
            final(self)@ == old(self)@,
            final(self).spec_is_inline() == (old(self).spec_len() <= INLINE_CAPACITY),
            final(self).spec_capacity() == if old(self).spec_len() <= INLINE_CAPACITY {
                INLINE_CAPACITY as nat
            } else {
                old(self).spec_len()
            },
    {
        proof {
            use_type_invariant(&*self);
        }
        let mut bytes = self.take_bytes();
        bytes.shrink();
        self.bytes = bytes;
    }

    /// Appends `s`. Text that outgrows the capacity moves to a heap buffer
    /// whose capacity is the next power of two of the new length.
    pub fn push_str(&mut self, s: &str)
        requires
            old(self).spec_len() + s.spec_bytes().len() <= old(self).spec_capacity() || next_pow2(
                old(self).spec_len() + s.spec_bytes().len(),
            ) < MAX_CAPACITY,
        ensures
            final(self).wf(),
            final(self).spec_bytes() == old(self).spec_bytes() + s.spec_bytes(),
            final(self)@ == old(self)@ + s@,
            final(self).spec_capacity() == grown_capacity(
                old(self).spec_capacity(),
                old(self).spec_len() + s.spec_bytes().len(),
            ),
            final(self).spec_is_inline() == (old(self).spec_is_inline() && old(self).spec_len()
                + s.spec_bytes().len() <= INLINE_CAPACITY),
    {
        proof {
            use_type_invariant(&*self);
        }
        let mut bytes = self.take_bytes();
        bytes.extend_from_slice(s.as_bytes());
        proof {
            lemma_decode_concat(old(self).spec_bytes(), s.spec_bytes());
        }
        self.bytes = bytes;
    }

    /// Makes room for `additional` bytes beyond the current capacity.
    pub fn reserve(&mut self, additional: usize)
        requires
            old(self).spec_capacity() + additional < MAX_CAPACITY,
        ensures
            final(self).wf(),
            final(self).spec_bytes() == old(self).spec_bytes(),
            final(self)@ == old(self)@,
            final(self).spec_capacity() == old(self).spec_capacity() + additional,
            final(self).spec_capacity() >= final(self).spec_len() + additional,
            final(self).spec_is_inline() == (old(self).spec_is_inline() && additional == 0),
    {
        proof {
            use_type_invariant(&*self);
        }
        let mut bytes = self.take_bytes();
        bytes.reserve(additional);
        self.bytes = bytes;
    }

    /// Moves the text to the heap, if it is not there yet, with room for
    /// exactly `additional` bytes beyond the current capacity.
    pub fn reserve_exact(&mut self, additional: usize)
        requires
            old(self).spec_capacity() + additional < MAX_CAPACITY,
        ensures
            final(self).wf(),
            final(self).spec_bytes() == old(self).spec_bytes(),
            final(self)@ == old(self)@,
            final(self).spec_capacity() == old(self).spec_capacity() + additional,
            final(self).spec_capacity() >= final(self).spec_len() + additional,
            !final(self).spec_is_inline(),
    {
        proof {
            use_type_invariant(&*self);
        }
        let mut bytes = self.take_bytes();
        bytes.reserve_exact(additional);
        self.bytes = bytes;
    }

    /// Appends one character.
    pub fn push(&mut self, ch: char)
        requires
            old(self).spec_len() + encode_utf8(seq![ch]).len() <= old(self).spec_capacity()
                || next_pow2(old(self).spec_len() + encode_utf8(seq![ch]).len()) < MAX_CAPACITY,
        ensures
            final(self).wf(),
            final(self).spec_bytes() == old(self).spec_bytes() + encode_utf8(seq![ch]),
            final(self)@ == old(self)@.push(ch),
            final(self).spec_capacity() == grown_capacity(
                old(self).spec_capacity(),
                old(self).spec_len() + encode_utf8(seq![ch]).len(),
            ),
            final(self).spec_is_inline() == (old(self).spec_is_inline() && old(self).spec_len()
                + encode_utf8(seq![ch]).len() <= INLINE_CAPACITY),
    {
        let mut scratch = [0u8; 4];
        let s = encode_char(ch, &mut scratch);
        self.push_str(s);
        assert(old(self)@ + seq![ch] =~= old(self)@.push(ch));
    }

    /// Appends the characters of `chars` in order, after making room for one
    /// byte for each of them.
    pub fn extend(&mut self, chars: &[char])
        requires
            old(self).spec_capacity() + chars@.len() < MAX_CAPACITY,
            old(self).spec_len() + encode_utf8(chars@).len() <= old(self).spec_capacity()
                + chars@.len() || next_pow2(old(self).spec_len() + encode_utf8(chars@).len())
                < MAX_CAPACITY,
        ensures
            final(self).wf(),
            final(self).spec_bytes() == old(self).spec_bytes() + encode_utf8(chars@),
            final(self)@ == old(self)@ + chars@,
            final(self).spec_capacity() == capacity_after_chars(
                old(self).spec_capacity() + chars@.len(),
                old(self).spec_len(),
                chars@,
            ),
            final(self).spec_is_inline() == (old(self).spec_is_inline() && chars@.len() == 0),
    {
        proof {
            use_type_invariant(&*self);
            self.lemma_wf_text();
        }
        self.reserve(chars.len());
        let ghost total = old(self).spec_len() + encode_utf8(chars@).len();
        let ghost target = capacity_after_chars(self.spec_capacity(), self.spec_len(), chars@);
        let mut i: usize = 0;
        proof {
            assert(chars@.subrange(0, 0) =~= Seq::<char>::empty());
            assert(chars@.subrange(0, chars@.len() as int) =~= chars@);
            assert(old(self).spec_bytes() + encode_utf8(Seq::<char>::empty()) =~= old(
                self,
            ).spec_bytes());
            assert(old(self)@ + Seq::<char>::empty() =~= old(self)@);
        }
        while i < chars.len()
            invariant
                i <= chars@.len(),
                self.wf(),
                self.spec_bytes() == old(self).spec_bytes() + encode_utf8(
                    chars@.subrange(0, i as int),
                ),
                self@ == old(self)@ + chars@.subrange(0, i as int),
                self.spec_len() + encode_utf8(chars@.subrange(i as int, chars@.len() as int)).len()
                    == total,
                capacity_after_chars(
                    self.spec_capacity(),
                    self.spec_len(),
                    chars@.subrange(i as int, chars@.len() as int),
                ) == target,
                total <= self.spec_capacity() || next_pow2(total) < MAX_CAPACITY,
                self.spec_is_inline() == (old(self).spec_is_inline() && chars@.len() == 0),
            decreases chars@.len() - i,
        {
            let ch = chars[i];
            proof {
                let rest = chars@.subrange(i as int, chars@.len() as int);
                assert(rest.drop_first() =~= chars@.subrange(i + 1, chars@.len() as int));
                assert(rest =~= seq![ch] + rest.drop_first());
                lemma_encode_concat(seq![ch], rest.drop_first());
                lemma_encode_concat(chars@.subrange(0, i as int), seq![ch]);
                assert(chars@.subrange(0, i as int) + seq![ch] =~= chars@.subrange(0, i + 1));
                assert(chars@.subrange(0, i as int).push(ch) =~= chars@.subrange(0, i + 1));
                lemma_next_pow2_monotone(self.spec_len() + encode_utf8(seq![ch]).len(), total);
                self.lemma_wf_text();
            }
            let ghost before = *self;
            self.push(ch);
            proof {
                assert(self.spec_bytes() =~= old(self).spec_bytes() + encode_utf8(
                    chars@.subrange(0, i + 1),
                ));
                assert(self@ =~= old(self)@ + chars@.subrange(0, i + 1));
                self.lemma_wf_text();
                if total > before.spec_capacity() && self.spec_capacity() != before.spec_capacity() {
                    lemma_next_pow2_monotone(self.spec_len(), total);
                }
            }
            i += 1;
        }
        proof {
            assert(chars@.subrange(i as int, chars@.len() as int) =~= Seq::<char>::empty());
        }
    }

    /// Cuts the text down to its first `new_len` bytes. A `new_len` that is
    /// not below the length changes nothing.
    pub fn truncate(&mut self, new_len: usize)
        requires
            new_len < old(self).spec_len() ==> is_char_boundary(
                old(self).spec_bytes(),
                new_len as int,
            ),
        ensures
            final(self).wf(),
            final(self).spec_bytes() == if new_len < old(self).spec_len() {
                old(self).spec_bytes().subrange(0, new_len as int)
            } else {
                old(self).spec_bytes()
            },
            final(self).spec_capacity() == old(self).spec_capacity(),
            final(self).spec_is_inline() == old(self).spec_is_inline(),
    {
        proof {
            use_type_invariant(&*self);
        }
        if new_len < self.len() {
            let mut bytes = self.take_bytes();
            proof {
                vstd::utf8::valid_utf8_split(bytes@, new_len as int);
            }
            bytes.set_len(new_len);
            self.bytes = bytes;
        }
    }

    /// Turns bytes into a string if they are valid UTF-8; if not, hands them
    /// back unchanged together with the validation error.
    pub fn from_utf8(bytes: IBytes) -> (r: Result<IString, FromUtf8Error<IBytes>>)
        ensures
            r is Ok <==> valid_utf8(bytes@),
            r matches Ok(s) ==> s.wf() && s.spec_bytes() == bytes@ && s.spec_capacity()
                == bytes.spec_capacity() && s.spec_is_inline() == bytes.spec_is_inline(),
            r matches Err(e) ==> e.spec_bytes() == bytes && e.spec_error() == utf8_error_of(bytes@),
    {
        proof {
            use_type_invariant(&bytes);
        }
        match str_from_utf8(bytes.as_slice()) {
            Ok(_) => Ok(IString { bytes }),
            Err(error) => Err(FromUtf8Error::new(bytes, error)),
        }
    }

    /// A string holding a copy of `s`: inline if `s` fits the inline
    /// buffer, else on the heap with a capacity of exactly its length.
    pub fn from(s: &str) -> (r: IString)
        requires
            s.spec_bytes().len() < MAX_CAPACITY,
        ensures
            r.wf(),
            r.spec_bytes() == s.spec_bytes(),
            r@ == s@,
            r.spec_is_inline() == (s.spec_bytes().len() <= INLINE_CAPACITY),
            r.spec_capacity() == if s.spec_bytes().len() <= INLINE_CAPACITY {
                INLINE_CAPACITY as nat
            } else {
                s.spec_bytes().len()
            },
    {
        IString { bytes: IBytes::from(s.as_bytes()) }
    }

    /// A string that takes over the buffer of `s`. An empty `s` gives an
    /// empty inline string; any other stays on the heap, and the capacity
    /// accounted for is its length.
    pub fn from_string(s: String) -> (r: IString)
        requires
            encode_utf8(s@).len() <= MAX_CAPACITY,
        ensures
            r.wf(),
            r.spec_bytes() == encode_utf8(s@),
            r@ == s@,
            r.spec_is_inline() == (encode_utf8(s@).len() == 0),
            r.spec_capacity() == if encode_utf8(s@).len() == 0 {
                INLINE_CAPACITY as nat
            } else {
                encode_utf8(s@).len()
            },
    {
        IString { bytes: IBytes::from_vec(string_into_bytes(s)) }
    }

    /// The text as an owned string.
    pub fn into_string(self) -> (r: String)
        ensures
            r@ == self@,
    {
        self.as_str().to_owned()
    }

    /// The text as a vector of UTF-8 bytes.
    pub fn into_bytes(self) -> (r: Vec<u8>)
        ensures
            r@ == self.spec_bytes(),
    {
        self.bytes.into_vec()
    }
}

impl Default for IString {
    fn default() -> (r: IString)
        ensures
            r.wf(),
            r.spec_bytes() == Seq::<u8>::empty(),
            r@ == Seq::<char>::empty(),
            r.spec_is_inline(),
            r.spec_capacity() == INLINE_CAPACITY,
    {
        IString::new()
    }
}

impl Clone for IString {
    /// A copy with a buffer of its own.
    fn clone(&self) -> (r: IString)
        ensures
            r.wf(),
            r.spec_bytes() == self.spec_bytes(),
            r@ == self@,
            r.spec_is_inline() == (self.spec_len() <= INLINE_CAPACITY),
            r.spec_capacity() == if self.spec_len() <= INLINE_CAPACITY {
                INLINE_CAPACITY as nat
            } else {
                self.spec_len()
            },
    {
        proof {
            use_type_invariant(self);
        }
        IString { bytes: self.bytes.clone() }
    }
}

/// The capacity after the characters of `chars` were appended one by one to
/// text of `len` bytes in a buffer of capacity `cap`.
pub open spec fn capacity_after_chars(cap: nat, len: nat, chars: Seq<char>) -> nat
    decreases chars.len(),
{
    if chars.len() == 0 {
        cap
    } else {
        let longer = len + encode_utf8(seq![chars[0]]).len();
        capacity_after_chars(grown_capacity(cap, longer), longer, chars.drop_first())
    }
}

} // verus!
