//! The packed layout of a container value. The length byte of the inline
//! representation is the last byte of the value and so the most significant
//! byte of the heap representation's length word, which is read in
//! little-endian order whatever the machine. The flag bit of that byte is
//! the top bit of the word: a length in range never sets it.

use vstd::prelude::*;
use vstd::arithmetic::power2::{lemma2_to64, lemma_pow2_adds, lemma_pow2_strictly_increases, pow2};

verus! {

/// Flag bit of the length byte that marks the inline representation.
pub const IS_INLINE: u8 = 0x80;

/// The bits of the length byte that hold the inline length.
pub const LEN_MASK: u8 = 0x7f;

/// Number of bytes in a length word.
pub const WORD_BYTES: usize = 8;

/// The number that `bytes` spell in little-endian order.
pub open spec fn le_value(bytes: Seq<u8>) -> nat
    decreases bytes.len(),
{
    if bytes.len() == 0 {
        0
    } else {
        bytes[0] as nat + 256 * le_value(bytes.drop_first())
    }
}

/// The bytes of the length word of a value whose last bytes are `tail` and
/// then the length byte `len_byte`.
pub open spec fn len_word_bytes(tail: Seq<u8>, len_byte: u8) -> Seq<u8> {
    tail.subrange(tail.len() - (WORD_BYTES - 1), tail.len() as int).push(len_byte)
}

/// A little-endian number of `n` bytes is below `2^(8 n)`.
pub proof fn lemma_le_value_bound(bytes: Seq<u8>)
    ensures
        le_value(bytes) < pow2(8 * bytes.len()),
    decreases bytes.len(),
{
    lemma2_to64();
    if bytes.len() > 0 {
        lemma_le_value_bound(bytes.drop_first());
        lemma_pow2_adds(8, 8 * bytes.drop_first().len());
    }
}

/// The number is its lower bytes plus the top byte shifted above them.
pub proof fn lemma_le_value_push(low: Seq<u8>, top: u8)
    ensures
        le_value(low.push(top)) == le_value(low) + pow2(8 * low.len()) * top,
    decreases low.len(),
{
    lemma2_to64();
    let all = low.push(top);
    if low.len() == 0 {
        assert(all.drop_first() =~= Seq::<u8>::empty());
        assert(le_value(all.drop_first()) == 0);
        assert(le_value(all) == all[0] as nat + 256 * le_value(all.drop_first()));
        assert(le_value(low) == 0);
        assert(pow2(0) * top == top);
    } else {
        let rest = low.drop_first();
        lemma_le_value_push(rest, top);
        assert(all.drop_first() =~= rest.push(top));
        lemma_pow2_adds(8, 8 * rest.len());
        let p = pow2(8 * rest.len());
        assert(pow2(8 * low.len()) == 256 * p);
        assert(256 * (p * top) == (256 * p) * top) by (nonlinear_arith);
        assert(le_value(all) == all[0] as nat + 256 * le_value(all.drop_first()));
        assert(le_value(low) == low[0] as nat + 256 * le_value(rest));
    }
}

/// Sets the inline flag on a length.
pub fn with_inline_flag(len: u8) -> (r: u8)
    requires
        len <= LEN_MASK,
    ensures
        r & IS_INLINE != 0,
        r & LEN_MASK == len,
        r == len + IS_INLINE,
{
    assert((len | 0x80u8) & 0x80u8 != 0 && (len | 0x80u8) & 0x7fu8 == len && (len | 0x80u8) == len
        + 0x80u8) by (bit_vector)
        requires
            len <= 0x7fu8,
    ;
    len | IS_INLINE
}

/// Reads up to eight bytes as a little-endian number.
pub fn le_word(bytes: &[u8]) -> (r: u64)
    requires
        bytes@.len() <= WORD_BYTES,
    ensures
        r == le_value(bytes@),
{
    let n = bytes.len();
    let mut acc: u64 = 0;
    let mut i: usize = n;
    proof {
        lemma2_to64();
        assert(bytes@.subrange(n as int, n as int) =~= Seq::<u8>::empty());
    }
    while i > 0
        invariant
            n == bytes@.len(),
            n <= WORD_BYTES,
            i <= n,
            acc == le_value(bytes@.subrange(i as int, n as int)),
        decreases i,
    {
        proof {
            let rest = bytes@.subrange(i as int, n as int);
            let more = bytes@.subrange(i - 1, n as int);
            assert(more.drop_first() =~= rest);
            lemma_le_value_bound(rest);
            lemma_le_value_bound(more);
            lemma2_to64();
            if more.len() < 8 {
                lemma_pow2_strictly_increases(8 * more.len(), 64);
            }
        }
        i -= 1;
        acc = acc * 256 + bytes[i] as u64;
    }
    assert(bytes@.subrange(0, n as int) =~= bytes@);
    acc
}

/// The length word of a value whose last bytes are `tail` and then the
/// length byte `len_byte`.
pub fn len_word(tail: &[u8], len_byte: u8) -> (r: u64)
    requires
        tail@.len() >= WORD_BYTES - 1,
    ensures
        r == le_value(len_word_bytes(tail@, len_byte)),
{
    let mut word = [0u8; 8];
    let n = tail.len();
    let start = n - (WORD_BYTES - 1);
    let mut i: usize = 0;
    while i < WORD_BYTES - 1
        invariant
            i <= WORD_BYTES - 1,
            n == tail@.len(),
            start + (WORD_BYTES - 1) == n,
            forall|k: int| 0 <= k < i ==> word@[k] == tail@[start + k],
        decreases WORD_BYTES - 1 - i,
    {
        word[i] = tail[start + i];
        i += 1;
    }
    word[WORD_BYTES - 1] = len_byte;
    assert(word@ =~= len_word_bytes(tail@, len_byte));
    le_word(word.as_slice())
}

/// The inline flag of the length byte is the top bit of the length word:
/// with the flag set the word is `2^63` or more, above every length in
/// range; without it the word is below `2^63`.
pub proof fn lemma_flag_is_top_bit(tail: Seq<u8>, len_byte: u8)
    requires
        tail.len() >= WORD_BYTES - 1,
    ensures
        len_byte & IS_INLINE != 0 <==> le_value(len_word_bytes(tail, len_byte)) >= pow2(63),
        len_byte & IS_INLINE != 0 ==> le_value(len_word_bytes(tail, len_byte)) > usize::MAX / 2,
        len_byte == IS_INLINE && le_value(tail.subrange(tail.len() - 7, tail.len() as int)) == 0
            ==> le_value(len_word_bytes(tail, len_byte)) == pow2(63),
{
    let low = tail.subrange(tail.len() - 7, tail.len() as int);
    lemma2_to64();
    vstd::arithmetic::power2::lemma2_to64_rest();
    lemma_le_value_push(low, len_byte);
    lemma_le_value_bound(low);
    assert(len_byte & 0x80u8 != 0 <==> len_byte >= 128) by (bit_vector);
    assert(pow2(56) * 128 == pow2(63));
    assert(len_byte >= 128 ==> pow2(56) * len_byte >= pow2(56) * 128) by (nonlinear_arith);
    assert(len_byte < 128 ==> pow2(56) * len_byte <= pow2(56) * 127) by (nonlinear_arith);
}

} // verus!
