//! The standard library's UTF-8 validation and encoding, with the contracts
//! the string containers rely on.

use vstd::prelude::*;
use vstd::string::StringSliceAdditionalSpecFns;
use vstd::utf8::{decode_utf8, encode_utf8, valid_utf8};

verus! {

/// The error of a failed UTF-8 validation. Its content is not modelled.
#[verifier::external_type_specification]
#[verifier::external_body]
pub struct ExUtf8Error(core::str::Utf8Error);

/// The error that validating `bytes` reports when they are not valid UTF-8.
pub uninterp spec fn utf8_error_of(bytes: Seq<u8>) -> core::str::Utf8Error;

/// `core::str::from_utf8`: succeeds exactly on valid UTF-8 and then returns
/// the same bytes as a string slice; the error of a failure depends on the
/// bytes alone.
#[verifier::external_body]
pub(crate) fn str_from_utf8(v: &[u8]) -> (r: Result<&str, core::str::Utf8Error>)
    ensures
        r is Ok <==> valid_utf8(v@),
        r matches Ok(s) ==> s.spec_bytes() == v@,
        r matches Err(e) ==> e == utf8_error_of(v@),
{
    core::str::from_utf8(v)
}

/// `char::encode_utf8`: writes the UTF-8 encoding of `ch` into `dst`, which
/// is large enough for any character, and returns it as a string slice that
/// holds this one character.
#[verifier::external_body]
pub(crate) fn encode_char(ch: char, dst: &mut [u8; 4]) -> (r: &str)
    ensures
        r@ == seq![ch],
{
    ch.encode_utf8(dst)
}

/// `String::into_bytes`: the bytes of the string, which are the UTF-8
/// encoding of its characters.
#[verifier::external_body]
pub(crate) fn string_into_bytes(s: String) -> (r: Vec<u8>)
    ensures
        r@ == encode_utf8(s@),
{
    s.into_bytes()
}

/// Encoding a concatenation gives the concatenation of the encodings.
pub proof fn lemma_encode_concat(x: Seq<char>, y: Seq<char>)
    ensures
        encode_utf8(x + y) == encode_utf8(x) + encode_utf8(y),
    decreases x.len(),
{
    if x.len() == 0 {
        assert(x + y =~= y);
        assert(encode_utf8(x) + encode_utf8(y) =~= encode_utf8(y));
    } else {
        lemma_encode_concat(x.drop_first(), y);
        assert((x + y).drop_first() =~= x.drop_first() + y);
        assert(encode_utf8(x + y) =~= encode_utf8(x) + encode_utf8(y));
    }
}

/// Decoding the concatenation of two valid encodings gives the concatenation
/// of the two texts.
pub proof fn lemma_decode_concat(a: Seq<u8>, b: Seq<u8>)
    requires
        valid_utf8(a),
        valid_utf8(b),
    ensures
        valid_utf8(a + b),
        decode_utf8(a + b) == decode_utf8(a) + decode_utf8(b),
{
    vstd::utf8::valid_utf8_concat(a, b);
    vstd::utf8::decode_utf8_encode_utf8(a);
    vstd::utf8::decode_utf8_encode_utf8(b);
    lemma_encode_concat(decode_utf8(a), decode_utf8(b));
    vstd::utf8::encode_utf8_decode_utf8(decode_utf8(a) + decode_utf8(b));
}

} // verus!
