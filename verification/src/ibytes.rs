//! The base byte container: up to [`INLINE_CAPACITY`] bytes are stored in the
//! value itself, longer content lives in a heap buffer that grows by powers
//! of two.

use vstd::prelude::*;
use vstd::arithmetic::power2::{
    lemma2_to64, lemma_pow2_strictly_increases, lemma_pow2_unfold, pow2,
};
use vstd::slice::slice_subrange;
use crate::buffer::{vec_shrink_to, write_at};
use crate::growth::{
    lemma_doubled_until_bounds, lemma_next_pow2_unique, next_pow2, next_power_of_two,
};
use crate::layout::{le_value, len_word, len_word_bytes, with_inline_flag};
pub use crate::layout::{IS_INLINE, LEN_MASK};

verus! {

/// Number of bytes that fit into the value itself.
pub const INLINE_CAPACITY: usize = 23;

/// Largest length or capacity a container can have: the top bit of a heap
/// length is reserved for the representation flag.
pub const MAX_CAPACITY: usize = usize::MAX / 2;

/// Content stored in the value itself: the first `len` bytes of `data`.
#[derive(Copy, Clone, Debug)]
pub struct Inline {
    pub data: [u8; INLINE_CAPACITY],
    pub len: u8,
}

/// Content stored in a heap buffer, together with the capacity the container
/// accounts for. The buffer is asked to hold at least `cap` bytes.
#[derive(Debug)]
pub struct Heap {
    pub buf: Vec<u8>,
    pub cap: usize,
}

/// The two representations of a container.
#[derive(Debug)]
pub enum InlineOrHeap {
    Inline(Inline),
    Heap(Heap),
}

/// A growable byte string that stores up to [`INLINE_CAPACITY`] bytes
/// without a heap allocation.
#[derive(Debug)]
pub struct IBytes {
    repr: InlineOrHeap,
}

impl Inline {
    /// The bytes in use.
    pub open spec fn content(&self) -> Seq<u8> {
        self.data@.subrange(0, self.len as int)
    }

    /// The length fits the inline buffer.
    pub open spec fn wf(&self) -> bool {
        self.len as int <= INLINE_CAPACITY
    }

    /// The inline buffer that holds nothing and is zero throughout.
    pub open spec fn empty_value() -> Inline {
        Inline { data: [0u8; INLINE_CAPACITY], len: 0 }
    }

    /// An inline buffer holding nothing.
    pub fn empty() -> (r: Inline)
        ensures
            r == Self::empty_value(),
            r.wf(),
            r.len == 0,
            r.content() == Seq::<u8>::empty(),
    {
        let r = Inline { data: [0u8; INLINE_CAPACITY], len: 0 };
        assert(r.content() =~= Seq::<u8>::empty());
        r
    }

    /// The length byte as the packed layout stores it: the length with the
    /// inline flag set.
    pub fn stored_len(&self) -> (r: u8)
        requires
            self.wf(),
        ensures
            r == self.len + IS_INLINE,
            r & IS_INLINE != 0,
            r & LEN_MASK == self.len,
    {
        with_inline_flag(self.len)
    }

    /// The length word of the heap representation as read from the bytes of
    /// this value in the packed layout, where `len` is the length byte as
    /// stored.
    pub fn len_word(&self) -> (r: u64)
        ensures
            r == le_value(len_word_bytes(self.data@, self.len)),
    {
        len_word(self.data.as_slice(), self.len)
    }

    /// The buffer with `bytes` written behind the bytes in use.
    pub fn appended(self, bytes: &[u8]) -> (r: Inline)
        requires
            self.wf(),
            self.len + bytes@.len() <= INLINE_CAPACITY,
        ensures
            r.wf(),
            r.content() == self.content() + bytes@,
    {
        let start: usize = self.len as usize;
        let r = Inline {
            data: write_at(self.data, start, bytes),
            len: (start + bytes.len()) as u8,
        };
        assert(r.content() =~= r.data@.subrange(0, start as int) + r.data@.subrange(
            start as int,
            start + bytes@.len(),
        ));
        r
    }
}

impl Heap {
    /// Length and capacity are in range and the content fits the capacity.
    pub open spec fn wf(&self) -> bool {
        self.buf@.len() <= self.cap <= MAX_CAPACITY
    }
}

impl InlineOrHeap {
    /// The active representation is valid.
    pub open spec fn wf(&self) -> bool {
        match self {
            InlineOrHeap::Inline(inline) => inline.wf(),
            InlineOrHeap::Heap(heap) => heap.wf(),
        }
    }

    /// The bytes held by the active representation.
    pub open spec fn content(&self) -> Seq<u8> {
        match self {
            InlineOrHeap::Inline(inline) => inline.content(),
            InlineOrHeap::Heap(heap) => heap.buf@,
        }
    }

    /// The number of bytes the active representation has room for.
    pub open spec fn capacity(&self) -> nat {
        match self {
            InlineOrHeap::Inline(_) => INLINE_CAPACITY as nat,
            InlineOrHeap::Heap(heap) => heap.cap as nat,
        }
    }

    /// Sets the capacity of a heap buffer.
    fn set_heap_capacity(&mut self, new_cap: usize)
        requires
            old(self).wf(),
            *old(self) is Heap,
            old(self).content().len() <= new_cap <= MAX_CAPACITY,
        ensures
            final(self).wf(),
            *final(self) is Heap,
            final(self).content() == old(self).content(),
            final(self).capacity() == new_cap,
    {
        match self {
            InlineOrHeap::Inline(_) => {},
            InlineOrHeap::Heap(heap) => {
                let len = heap.buf.len();
                if new_cap < heap.cap {
                    vec_shrink_to(&mut heap.buf, new_cap);
                } else {
                    heap.buf.reserve(new_cap - len);
                }
                heap.cap = new_cap;
            },
        }
    }

    /// Writes `bytes` behind the content, which has room for them.
    fn append_in_place(&mut self, bytes: &[u8])
        requires
            old(self).wf(),
            old(self).content().len() + bytes@.len() <= old(self).capacity(),
        ensures
            final(self).wf(),
            (*final(self) is Inline) == (*old(self) is Inline),
            final(self).content() == old(self).content() + bytes@,
            final(self).capacity() == old(self).capacity(),
    {
        match self {
            InlineOrHeap::Inline(inline) => {
                *inline = inline.appended(bytes);
            },
            InlineOrHeap::Heap(heap) => {
                heap.buf.extend_from_slice(bytes);
                assert(heap.buf@ =~= old(self).content() + bytes@);
            },
        }
    }
}

impl View for IBytes {
    type V = Seq<u8>;

    closed spec fn view(&self) -> Seq<u8> {
        self.repr.content()
    }
}

/// The capacity after making room for `needed` bytes in a buffer of capacity
/// `cap`: unchanged while the bytes fit, otherwise the next power of two.
pub open spec fn grown_capacity(cap: nat, needed: nat) -> nat {
    if needed <= cap {
        cap
    } else {
        next_pow2(needed)
    }
}

impl IBytes {
    /// The representation invariant: an inline length is at most
    /// [`INLINE_CAPACITY`]; a heap length is at most its capacity, which is
    /// at most [`MAX_CAPACITY`].
    #[verifier::type_invariant]
    pub closed spec fn wf(&self) -> bool {
        self.repr.wf()
    }

    /// Whether the content is stored in the value itself.
    pub closed spec fn spec_is_inline(&self) -> bool {
        self.repr is Inline
    }

    /// The number of bytes held.
    pub open spec fn spec_len(&self) -> nat {
        self@.len()
    }

    /// The number of bytes the container has room for.
    pub closed spec fn spec_capacity(&self) -> nat {
        self.repr.capacity()
    }

    /// `after` is this container moved to a heap buffer of capacity `cap`:
    /// the same content, on the heap; a container that was on the heap
    /// already keeps its capacity.
    pub open spec fn moved_to_heap(&self, cap: usize, after: &IBytes) -> bool {
        &&& after.wf()
        &&& after@ == self@
        &&& !after.spec_is_inline()
        &&& after.spec_capacity() == if self.spec_is_inline() {
            cap as nat
        } else {
            self.spec_capacity()
        }
    }

    /// `after` is this container shrunk: the same content, inline exactly if
    /// it fits the inline buffer, else on the heap with a capacity of
    /// exactly the length.
    pub open spec fn shrunk(&self, after: &IBytes) -> bool {
        &&& after.wf()
        &&& after@ == self@
        &&& after.spec_is_inline() == (self.spec_len() <= INLINE_CAPACITY)
        &&& after.spec_capacity() == if self.spec_len() <= INLINE_CAPACITY {
            INLINE_CAPACITY as nat
        } else {
            self.spec_len()
        }
    }

    /// `after` is this container with `bytes` appended: it stays where it is
    /// while the new length fits the capacity, else it is on the heap with
    /// the next power of two of the new length as its capacity.
    pub open spec fn extended(&self, bytes: Seq<u8>, after: &IBytes) -> bool {
        &&& after.wf()
        &&& after@ == self@ + bytes
        &&& after.spec_len() <= after.spec_capacity()
        &&& after.spec_capacity() == grown_capacity(
            self.spec_capacity(),
            self.spec_len() + bytes.len(),
        )
        &&& after.spec_is_inline() == (self.spec_is_inline() && self.spec_len() + bytes.len()
            <= INLINE_CAPACITY)
    }

    /// `copy` is a clone of this container: a value of its own with the same
    /// content, inline if the content fits the inline buffer, else on the
    /// heap with a capacity of exactly the length.
    pub open spec fn cloned(&self, copy: &IBytes) -> bool {
        &&& copy.wf()
        &&& copy@ == self@
        &&& copy.spec_is_inline() == (self.spec_len() <= INLINE_CAPACITY)
        &&& copy.spec_capacity() == if self.spec_len() <= INLINE_CAPACITY {
            INLINE_CAPACITY as nat
        } else {
            self.spec_len()
        }
    }

    /// In every valid container the content fits the capacity, the capacity
    /// is in range, and inline content fits the inline buffer.
    pub proof fn lemma_wf_bounds(&self)
        requires
            self.wf(),
        ensures
            self.spec_len() <= self.spec_capacity() <= MAX_CAPACITY,
            self.spec_is_inline() ==> self.spec_capacity() == INLINE_CAPACITY,
    {
    }

    /// Takes the representation out and leaves an empty inline one behind.
    fn take_repr(&mut self) -> (r: InlineOrHeap)
        ensures
            r == old(self).repr,
            final(self).repr == InlineOrHeap::Inline(Inline::empty_value()),
    {
        let mut repr = InlineOrHeap::Inline(Inline::empty());
        core::mem::swap(&mut self.repr, &mut repr);
        repr
    }

    /// An empty, inline container.
    pub fn new() -> (r: IBytes)
        ensures
            r.wf(),
            r@ == Seq::<u8>::empty(),
            r.spec_is_inline(),
            r.spec_capacity() == INLINE_CAPACITY,
    {
        IBytes { repr: InlineOrHeap::Inline(Inline::empty()) }
    }

    /// An empty container with room for `capacity` bytes: inline if they fit
    /// the inline buffer, else on the heap with exactly that capacity.
    pub fn with_capacity(capacity: usize) -> (r: IBytes)
        requires
            capacity < MAX_CAPACITY,
        ensures
            r.wf(),
            r@ == Seq::<u8>::empty(),
            r.spec_is_inline() == (capacity <= INLINE_CAPACITY),
            r.spec_capacity() == if capacity <= INLINE_CAPACITY {
                INLINE_CAPACITY as nat
            } else {
                capacity as nat
            },
    {
        if capacity > INLINE_CAPACITY {
            IBytes { repr: InlineOrHeap::Heap(Heap { buf: Vec::with_capacity(capacity), cap: capacity }) }
        } else {
            IBytes::new()
        }
    }

    /// Whether the content is stored in the value itself.
    #[verifier::when_used_as_spec(spec_is_inline)]
    pub fn is_inline(&self) -> (r: bool)
        ensures
            r == self.spec_is_inline(),
    {
        match &self.repr {
            InlineOrHeap::Inline(_) => true,
            InlineOrHeap::Heap(_) => false,
        }
    }

    /// The number of bytes held.
    pub fn len(&self) -> (r: usize)
        ensures
            r == self.spec_len(),
    {
        proof {
            use_type_invariant(self);
        }
        match &self.repr {
            InlineOrHeap::Inline(inline) => inline.len as usize,
            InlineOrHeap::Heap(heap) => heap.buf.len(),
        }
    }

    /// The number of bytes the container can hold without reallocating.
    pub fn capacity(&self) -> (r: usize)
        ensures
            r == self.spec_capacity(),
            r >= self.spec_len(),
    {
        proof {
            use_type_invariant(self);
        }
        match &self.repr {
            InlineOrHeap::Inline(_) => INLINE_CAPACITY,
            InlineOrHeap::Heap(heap) => heap.cap,
        }
    }

    /// The content as a slice.
    pub fn as_slice(&self) -> (r: &[u8])
        ensures
            r@ == self@,
    {
        proof {
            use_type_invariant(self);
        }
        match &self.repr {
            InlineOrHeap::Inline(inline) => slice_subrange(
                inline.data.as_slice(),
                0,
                inline.len as usize,
            ),
            InlineOrHeap::Heap(heap) => heap.buf.as_slice(),
        }
    }

    /// Moves inline content to a heap buffer of capacity `cap`. A container
    /// that is on the heap already is left as it is.
    pub fn move_to_heap(&mut self, cap: usize)
        requires
            old(self).spec_is_inline() ==> old(self).spec_len() <= cap < MAX_CAPACITY,
        ensures
            old(self).moved_to_heap(cap, final(self)),
    {
        proof {
            use_type_invariant(&*self);
        }
        if self.is_inline() {
            let mut buf: Vec<u8> = Vec::with_capacity(cap);
            buf.extend_from_slice(self.as_slice());
            assert(buf@ =~= self@);
            self.repr = InlineOrHeap::Heap(Heap { buf, cap });
        }
    }

    /// Sets the capacity of a heap-resident container to `new_cap`.
    pub(crate) fn resize(&mut self, new_cap: usize)
        requires
            !old(self).spec_is_inline(),
            old(self).spec_len() <= new_cap <= MAX_CAPACITY,
        ensures
            final(self).wf(),
            final(self)@ == old(self)@,
            !final(self).spec_is_inline(),
            final(self).spec_capacity() == new_cap,
    {
        proof {
            use_type_invariant(&*self);
        }
        let mut repr = self.take_repr();
        repr.set_heap_capacity(new_cap);
        self.repr = repr;
    }

    /// Returns content that fits the inline buffer to it and releases the
    /// heap buffer; longer content keeps a heap buffer whose capacity is cut
    /// down to the length.
    pub fn shrink(&mut self)
        ensures
            old(self).shrunk(final(self)),
    {
        proof {
            use_type_invariant(&*self);
        }
        let len = self.len();
        if len <= INLINE_CAPACITY {
            if !self.is_inline() {
                let inline = Inline::empty().appended(self.as_slice());
                assert(inline.content() =~= self@);
                self.repr = InlineOrHeap::Inline(inline);
            }
        } else {
            self.resize(len);
        }
    }

    /// Makes room for `additional` bytes beyond the current capacity.
    pub fn reserve(&mut self, additional: usize)
        requires
            old(self).spec_capacity() + additional < MAX_CAPACITY,
        ensures
            final(self).wf(),
            final(self)@ == old(self)@,
            final(self).spec_capacity() == old(self).spec_capacity() + additional,
            final(self).spec_capacity() >= final(self).spec_len() + additional,
            final(self).spec_is_inline() == (old(self).spec_is_inline() && additional == 0),
    {
        proof {
            use_type_invariant(&*self);
        }
        let new_cap = self.capacity() + additional;
        if self.is_inline() {
            if new_cap > INLINE_CAPACITY {
                self.move_to_heap(new_cap);
            }
        } else {
            self.resize(new_cap);
        }
    }

    /// Moves the content to the heap, if it is not there yet, with room for
    /// exactly `additional` bytes beyond the current capacity.
    pub fn reserve_exact(&mut self, additional: usize)
        requires
            old(self).spec_capacity() + additional < MAX_CAPACITY,
        ensures
            final(self).wf(),
            final(self)@ == old(self)@,
            final(self).spec_capacity() == old(self).spec_capacity() + additional,
            final(self).spec_capacity() >= final(self).spec_len() + additional,
            !final(self).spec_is_inline(),
    {
        proof {
            use_type_invariant(&*self);
        }
        let new_cap = self.capacity() + additional;
        if self.is_inline() {
            self.move_to_heap(new_cap);
        } else {
            self.resize(new_cap);
        }
    }

    /// Appends one byte.
    pub fn push(&mut self, byte: u8)
        requires
            old(self).spec_len() < old(self).spec_capacity() || next_pow2(old(self).spec_len() + 1)
                < MAX_CAPACITY,
        ensures
            old(self).extended(seq![byte], final(self)),
    {
        proof {
            use_type_invariant(&*self);
        }
        let one: [u8; 1] = [byte];
        self.extend_from_slice(one.as_slice());
        assert(one@ =~= seq![byte]);
    }

    /// Appends `bytes`. Content that outgrows the capacity moves to a heap
    /// buffer whose capacity is the next power of two of the new length.
    pub fn extend_from_slice(&mut self, bytes: &[u8])
        requires
            old(self).spec_len() + bytes@.len() <= old(self).spec_capacity() || next_pow2(
                old(self).spec_len() + bytes@.len(),
            ) < MAX_CAPACITY,
        ensures
            old(self).extended(bytes@, final(self)),
    {
        proof {
            use_type_invariant(&*self);
        }
        let old_len = self.len();
        proof {
            lemma_doubled_until_bounds(old(self).spec_len() + bytes@.len(), 1);
        }
        let new_len = old_len + bytes.len();
        if new_len > self.capacity() {
            let new_cap = next_power_of_two(new_len);
            if self.is_inline() {
                self.move_to_heap(new_cap);
            } else {
                self.resize(new_cap);
            }
        }
        let mut repr = self.take_repr();
        repr.append_in_place(bytes);
        self.repr = repr;
    }

    /// Shortens the content to its first `new_len` bytes.
    pub fn set_len(&mut self, new_len: usize)
        requires
            new_len <= old(self).spec_len(),
        ensures
            final(self).wf(),
            final(self)@ == old(self)@.subrange(0, new_len as int),
            final(self).spec_capacity() == old(self).spec_capacity(),
            final(self).spec_is_inline() == old(self).spec_is_inline(),
    {
        proof {
            use_type_invariant(&*self);
        }
        let mut repr = self.take_repr();
        match &mut repr {
            InlineOrHeap::Inline(inline) => {
                inline.len = new_len as u8;
            },
            InlineOrHeap::Heap(heap) => {
                heap.buf.truncate(new_len);
            },
        }
        assert(repr.content() =~= old(self)@.subrange(0, new_len as int));
        self.repr = repr;
    }

    /// A container holding a copy of `s`: inline if `s` fits the inline
    /// buffer, else on the heap with a capacity of exactly its length.
    pub fn from(s: &[u8]) -> (r: IBytes)
        requires
            s@.len() <= MAX_CAPACITY,
        ensures
            r.wf(),
            r@ == s@,
            r.spec_is_inline() == (s@.len() <= INLINE_CAPACITY),
            r.spec_capacity() == if s@.len() <= INLINE_CAPACITY {
                INLINE_CAPACITY as nat
            } else {
                s@.len()
            },
    {
        if s.len() > INLINE_CAPACITY {
            let mut buf: Vec<u8> = Vec::with_capacity(s.len());
            buf.extend_from_slice(s);
            assert(buf@ =~= s@);
            IBytes { repr: InlineOrHeap::Heap(Heap { buf, cap: s.len() }) }
        } else {
            let inline = Inline::empty().appended(s);
            assert(inline.content() =~= s@);
            IBytes { repr: InlineOrHeap::Inline(inline) }
        }
    }

    /// A container that takes over the buffer of `v`. An empty vector gives
    /// an empty inline container; any other stays on the heap, and the
    /// capacity accounted for is its length.
    pub fn from_vec(v: Vec<u8>) -> (r: IBytes)
        requires
            v@.len() <= MAX_CAPACITY,
        ensures
            r.wf(),
            r@ == v@,
            r.spec_is_inline() == (v@.len() == 0),
            r.spec_capacity() == if v@.len() == 0 {
                INLINE_CAPACITY as nat
            } else {
                v@.len()
            },
    {
        if v.len() == 0 {
            assert(v@ =~= Seq::<u8>::empty());
            IBytes::new()
        } else {
            let cap = v.len();
            IBytes { repr: InlineOrHeap::Heap(Heap { buf: v, cap }) }
        }
    }

    /// The content as a vector: the heap buffer itself, or a copy of inline
    /// content.
    pub fn into_vec(self) -> (r: Vec<u8>)
        ensures
            r@ == self@,
    {
        proof {
            use_type_invariant(&self);
        }
        match self.repr {
            InlineOrHeap::Inline(inline) => {
                let mut buf: Vec<u8> = Vec::with_capacity(inline.len as usize);
                buf.extend_from_slice(slice_subrange(inline.data.as_slice(), 0, inline.len as usize));
                assert(buf@ =~= inline.content());
                buf
            },
            InlineOrHeap::Heap(heap) => heap.buf,
        }
    }

    /// Wraps an inline buffer.
    pub fn from_inline(inline: Inline) -> (r: IBytes)
        requires
            inline.wf(),
        ensures
            r.wf(),
            r@ == inline.content(),
            r.spec_is_inline(),
            r.spec_capacity() == INLINE_CAPACITY,
    {
        IBytes { repr: InlineOrHeap::Inline(inline) }
    }

    /// Wraps a heap buffer, which is asked to hold its capacity.
    pub fn from_heap(heap: Heap) -> (r: IBytes)
        requires
            heap.wf(),
        ensures
            r.wf(),
            r@ == heap.buf@,
            !r.spec_is_inline(),
            r.spec_capacity() == heap.cap,
    {
        let mut buf = heap.buf;
        let len = buf.len();
        buf.reserve(heap.cap - len);
        IBytes { repr: InlineOrHeap::Heap(Heap { buf, cap: heap.cap }) }
    }

    /// Unwraps the inline buffer of an inline container.
    pub fn to_inline(self) -> (r: Inline)
        requires
            self.spec_is_inline(),
        ensures
            r.wf(),
            r.content() == self@,
    {
        proof {
            use_type_invariant(&self);
        }
        match self.repr {
            InlineOrHeap::Inline(inline) => inline,
            InlineOrHeap::Heap(_) => vstd::pervasive::unreached(),
        }
    }

    /// Unwraps the heap buffer of a heap-resident container.
    pub fn to_heap(self) -> (r: Heap)
        requires
            !self.spec_is_inline(),
        ensures
            r.wf(),
            r.buf@ == self@,
            r.cap == self.spec_capacity(),
    {
        proof {
            use_type_invariant(&self);
        }
        match self.repr {
            InlineOrHeap::Inline(_) => vstd::pervasive::unreached(),
            InlineOrHeap::Heap(heap) => heap,
        }
    }
}

impl Clone for IBytes {
    /// A copy with a buffer of its own: inline if the content fits the
    /// inline buffer, else on the heap with a capacity of exactly the length.
    fn clone(&self) -> (r: IBytes)
        ensures
            self.cloned(&r),
    {
        proof {
            use_type_invariant(self);
        }
        IBytes::from(self.as_slice())
    }
}

/// Content that fits the inline buffer, moved to the heap and then shrunk,
/// is inline again and unchanged.
pub proof fn lemma_move_to_heap_then_shrink(start: IBytes, cap: usize, moved: IBytes, back: IBytes)
    requires
        start.wf(),
        start.spec_len() <= INLINE_CAPACITY,
        start.moved_to_heap(cap, &moved),
        moved.shrunk(&back),
    ensures
        back.wf(),
        back.spec_is_inline(),
        back@ == start@,
{
}

/// What is appended to a clone is appended to a copy of the content that the
/// source had when it was cloned: the clone ends with the source's content
/// followed by the new bytes, whatever representation the source is in.
pub proof fn lemma_clone_then_extend(source: IBytes, copy: IBytes, bytes: Seq<u8>, grown: IBytes)
    requires
        source.wf(),
        source.cloned(&copy),
        copy.extended(bytes, &grown),
    ensures
        grown@ == source@ + bytes,
        grown.spec_len() == source.spec_len() + bytes.len(),
        grown.spec_capacity() == grown_capacity(copy.spec_capacity(), grown.spec_len()),
{
}

/// The capacity of a container that was empty and inline and then had `n`
/// single bytes appended to it, one by one.
pub open spec fn capacity_after_pushes(n: nat) -> nat
    decreases n,
{
    if n == 0 {
        INLINE_CAPACITY as nat
    } else {
        grown_capacity(capacity_after_pushes((n - 1) as nat), n)
    }
}

/// The number of those `n` appends at which the capacity changed, that is,
/// at which the content was moved to a new buffer.
pub open spec fn reallocations(n: nat) -> nat
    decreases n,
{
    if n == 0 {
        0
    } else if capacity_after_pushes(n) != capacity_after_pushes((n - 1) as nat) {
        reallocations((n - 1) as nat) + 1
    } else {
        reallocations((n - 1) as nat)
    }
}

/// Appending one byte to a container that holds `n` bytes and has the
/// capacity that `n` appends lead to gives the capacity that `n + 1`
/// appends lead to, and the content always fits it.
pub proof fn lemma_push_steps_capacity(before: IBytes, byte: u8, after: IBytes, n: nat)
    requires
        before.wf(),
        before.spec_len() == n,
        before.spec_capacity() == capacity_after_pushes(n),
        before.extended(seq![byte], &after),
    ensures
        after.spec_len() == n + 1,
        after.spec_capacity() == capacity_after_pushes(n + 1),
        after.spec_len() <= after.spec_capacity(),
{
}

/// Appending `n` single bytes to an empty container reallocates only a
/// logarithmic number of times: nothing is reallocated while the bytes fit
/// the inline buffer, and after `r >= 1` reallocations the capacity is
/// `16 * 2^r` while more than `8 * 2^r` bytes are held.
pub proof fn lemma_pushes_reallocate_rarely(n: nat)
    ensures
        n <= capacity_after_pushes(n),
        n <= INLINE_CAPACITY ==> capacity_after_pushes(n) == INLINE_CAPACITY && reallocations(n)
            == 0,
        n > INLINE_CAPACITY ==> capacity_after_pushes(n) == pow2(reallocations(n) + 4) && pow2(
            reallocations(n) + 3,
        ) < n,
    decreases n,
{
    lemma2_to64();
    if n == 0 {
    } else {
        let m = (n - 1) as nat;
        lemma_pushes_reallocate_rarely(m);
        if n <= INLINE_CAPACITY {
        } else if n == INLINE_CAPACITY + 1 {
            lemma_next_pow2_unique(n, 5);
        } else {
            let r = reallocations(m);
            if n > capacity_after_pushes(m) {
                lemma_pow2_unfold(r + 5);
                lemma_next_pow2_unique(n, r + 5);
                lemma_pow2_strictly_increases(r + 4, r + 5);
            }
        }
    }
}

} // verus!
