//! Equality, order and hashing of the containers. All three go by the
//! content alone: whether a container is inline or on the heap never shows.

use vstd::prelude::*;
use vstd::std_specs::cmp::{PartialEqSpec, PartialOrdSpec};
use vstd::string::StringSliceAdditionalSpecFns;
use core::cmp::Ordering;
use crate::ibytes::IBytes;
use crate::istring::IString;
use crate::small::{SmallBytes, SmallString};
use crate::tiny::{TinyBytes, TinyString};

verus! {

/// The outcome of comparing two byte strings.
#[derive(Copy, Clone, Debug, PartialEq, Eq, Structural)]
pub enum Order {
    Less,
    Equal,
    Greater,
}

/// `a` comes before `b` in lexicographic order: they agree on the first `k`
/// bytes, and there `a` ends while `b` goes on, or `a` has the smaller byte.
pub open spec fn lex_less(a: Seq<u8>, b: Seq<u8>) -> bool {
    exists|k: int| #[trigger] differs_below(a, b, k)
}

/// `a` and `b` agree on their first `k` bytes, and at position `k` either
/// `a` ends and `b` does not, or the byte of `a` is the smaller one.
pub open spec fn differs_below(a: Seq<u8>, b: Seq<u8>, k: int) -> bool {
    &&& 0 <= k <= a.len()
    &&& k < b.len()
    &&& a.subrange(0, k) == b.subrange(0, k)
    &&& (k < a.len() ==> a[k] < b[k])
}

/// The lexicographic order of two byte strings.
pub open spec fn lex_order(a: Seq<u8>, b: Seq<u8>) -> Order {
    if a == b {
        Order::Equal
    } else if lex_less(a, b) {
        Order::Less
    } else {
        Order::Greater
    }
}

/// The order as the standard library writes it.
pub open spec fn std_order(o: Order) -> Ordering {
    match o {
        Order::Less => Ordering::Less,
        Order::Equal => Ordering::Equal,
        Order::Greater => Ordering::Greater,
    }
}

/// Two byte strings that are not equal are ordered one way or the other,
/// and never both ways.
pub proof fn lemma_lex_order_total(a: Seq<u8>, b: Seq<u8>)
    ensures
        a != b ==> (lex_less(a, b) <==> !lex_less(b, a)),
        a == b ==> !lex_less(a, b),
        lex_order(a, b) == Order::Equal <==> a == b,
        lex_order(a, b) == Order::Less <==> lex_order(b, a) == Order::Greater,
{
    let n = common_prefix_len(a, b, 0);
    assert(a.subrange(0, 0) =~= b.subrange(0, 0));
    lemma_common_prefix(a, b, 0);
    lemma_lex_less_at_common_prefix(a, b, n);
    lemma_lex_less_at_common_prefix(b, a, n);
    if n == a.len() && n == b.len() {
        assert(a =~= a.subrange(0, n));
        assert(b =~= b.subrange(0, n));
    }
}

/// The number of leading positions from `from` on at which `a` and `b` hold
/// the same byte, added to `from`.
pub open spec fn common_prefix_len(a: Seq<u8>, b: Seq<u8>, from: int) -> int
    decreases a.len() - from,
{
    if 0 <= from < a.len() && from < b.len() && a[from] == b[from] {
        common_prefix_len(a, b, from + 1)
    } else {
        from
    }
}

proof fn lemma_common_prefix(a: Seq<u8>, b: Seq<u8>, from: int)
    requires
        0 <= from <= a.len(),
        from <= b.len(),
        a.subrange(0, from) == b.subrange(0, from),
    ensures
        from <= common_prefix_len(a, b, from) <= a.len(),
        common_prefix_len(a, b, from) <= b.len(),
        common_prefix_len(a, b, from) == common_prefix_len(b, a, from),
        a.subrange(0, common_prefix_len(a, b, from)) == b.subrange(
            0,
            common_prefix_len(a, b, from),
        ),
        common_prefix_len(a, b, from) < a.len() && common_prefix_len(a, b, from) < b.len()
            ==> a[common_prefix_len(a, b, from)] != b[common_prefix_len(a, b, from)],
    decreases a.len() - from,
{
    if from < a.len() && from < b.len() && a[from] == b[from] {
        assert(a.subrange(0, from + 1) =~= a.subrange(0, from).push(a[from]));
        assert(b.subrange(0, from + 1) =~= b.subrange(0, from).push(b[from]));
        lemma_common_prefix(a, b, from + 1);
    }
}

/// With `n` the first position at which `a` and `b` differ or one of them
/// ends, `a` comes before `b` exactly if the difference at `n` says so.
proof fn lemma_lex_less_at_common_prefix(a: Seq<u8>, b: Seq<u8>, n: int)
    requires
        0 <= n <= a.len(),
        n <= b.len(),
        a.subrange(0, n) == b.subrange(0, n),
        n < a.len() && n < b.len() ==> a[n] != b[n],
    ensures
        lex_less(a, b) <==> differs_below(a, b, n),
{
    if lex_less(a, b) {
        let k = choose|k: int| #[trigger] differs_below(a, b, k);
        assert(differs_below(a, b, k));
        if k < n {
            assert(a.subrange(0, n)[k] == a[k]);
            assert(b.subrange(0, n)[k] == b[k]);
            assert(false);
        } else if k > n {
            assert(a.subrange(0, k)[n] == a[n]);
            assert(b.subrange(0, k)[n] == b[n]);
            assert(false);
        }
        assert(k == n);
    }
}

/// Compares two slices byte by byte.
pub fn compare_slices(a: &[u8], b: &[u8]) -> (r: Order)
    ensures
        r == lex_order(a@, b@),
{
    let mut i: usize = 0;
    while i < a.len() && i < b.len() && a[i] == b[i]
        invariant
            i <= a@.len(),
            i <= b@.len(),
            a@.subrange(0, i as int) == b@.subrange(0, i as int),
        decreases a@.len() - i,
    {
        assert(a@.subrange(0, i + 1) =~= a@.subrange(0, i as int).push(a@[i as int]));
        assert(b@.subrange(0, i + 1) =~= b@.subrange(0, i as int).push(b@[i as int]));
        i += 1;
    }
    proof {
        lemma_lex_less_at_common_prefix(a@, b@, i as int);
        if i == a@.len() && i == b@.len() {
            assert(a@ =~= a@.subrange(0, i as int));
            assert(b@ =~= b@.subrange(0, i as int));
        } else {
            assert(a@ != b@) by {
                if a@ == b@ {
                    assert(a@.len() == b@.len());
                }
            }
        }
    }
    if i == a.len() {
        if i == b.len() {
            Order::Equal
        } else {
            Order::Less
        }
    } else if i == b.len() {
        Order::Greater
    } else if a[i] < b[i] {
        Order::Less
    } else {
        Order::Greater
    }
}

/// Whether two slices hold the same bytes.
pub fn slices_equal(a: &[u8], b: &[u8]) -> (r: bool)
    ensures
        r == (a@ == b@),
{
    proof {
        lemma_lex_order_total(a@, b@);
    }
    match compare_slices(a, b) {
        Order::Equal => true,
        _ => false,
    }
}

/// Translates an order into the standard library's.
pub fn to_std_order(o: Order) -> (r: Ordering)
    ensures
        r == std_order(o),
{
    match o {
        Order::Less => Ordering::Less,
        Order::Equal => Ordering::Equal,
        Order::Greater => Ordering::Greater,
    }
}

/// `Hash::hash` of a byte slice: feeds the slice to the hasher.
#[verifier::external_body]
fn hash_slice<H: core::hash::Hasher>(bytes: &[u8], state: &mut H) {
    core::hash::Hash::hash(bytes, state)
}

/// `Hash::hash` of a string slice: feeds the text to the hasher.
#[verifier::external_body]
fn hash_str<H: core::hash::Hasher>(text: &str, state: &mut H) {
    core::hash::Hash::hash(text, state)
}

impl PartialEq for IBytes {
    fn eq(&self, other: &IBytes) -> (r: bool) {
        slices_equal(self.as_slice(), other.as_slice())
    }
}

impl vstd::std_specs::cmp::PartialEqSpecImpl for IBytes {
    open spec fn obeys_eq_spec() -> bool {
        true
    }

    open spec fn eq_spec(&self, other: &IBytes) -> bool {
        self@ == other@
    }
}

impl Eq for IBytes {}

impl PartialOrd for IBytes {
    fn partial_cmp(&self, other: &IBytes) -> (r: Option<Ordering>) {
        Some(to_std_order(compare_slices(self.as_slice(), other.as_slice())))
    }
}

impl vstd::std_specs::cmp::PartialOrdSpecImpl for IBytes {
    open spec fn obeys_partial_cmp_spec() -> bool {
        true
    }

    open spec fn partial_cmp_spec(&self, other: &IBytes) -> Option<Ordering> {
        Some(std_order(lex_order(self@, other@)))
    }
}

impl IBytes {
    /// The lexicographic order of the contents.
    pub fn cmp(&self, other: &IBytes) -> (r: Ordering)
        ensures
            r == std_order(lex_order(self@, other@)),
    {
        to_std_order(compare_slices(self.as_slice(), other.as_slice()))
    }
}

impl<'a> PartialEq<&'a [u8]> for IBytes {
    fn eq(&self, other: &&'a [u8]) -> (r: bool) {
        slices_equal(self.as_slice(), other)
    }
}

impl<'a> vstd::std_specs::cmp::PartialEqSpecImpl<&'a [u8]> for IBytes {
    open spec fn obeys_eq_spec() -> bool {
        true
    }

    open spec fn eq_spec(&self, other: &&'a [u8]) -> bool {
        self@ == other@
    }
}

impl core::hash::Hash for IBytes {
    /// Hashes the content as a slice, whatever the representation.
    fn hash<H: core::hash::Hasher>(&self, state: &mut H) {
        hash_slice(self.as_slice(), state)
    }
}

impl PartialEq for SmallBytes {
    fn eq(&self, other: &SmallBytes) -> (r: bool) {
        slices_equal(self.as_slice(), other.as_slice())
    }
}

impl vstd::std_specs::cmp::PartialEqSpecImpl for SmallBytes {
    open spec fn obeys_eq_spec() -> bool {
        true
    }

    open spec fn eq_spec(&self, other: &SmallBytes) -> bool {
        self@ == other@
    }
}

impl Eq for SmallBytes {}

impl PartialOrd for SmallBytes {
    fn partial_cmp(&self, other: &SmallBytes) -> (r: Option<Ordering>) {
        Some(to_std_order(compare_slices(self.as_slice(), other.as_slice())))
    }
}

impl vstd::std_specs::cmp::PartialOrdSpecImpl for SmallBytes {
    open spec fn obeys_partial_cmp_spec() -> bool {
        true
    }

    open spec fn partial_cmp_spec(&self, other: &SmallBytes) -> Option<Ordering> {
        Some(std_order(lex_order(self@, other@)))
    }
}

impl SmallBytes {
    /// The lexicographic order of the contents.
    pub fn cmp(&self, other: &SmallBytes) -> (r: Ordering)
        ensures
            r == std_order(lex_order(self@, other@)),
    {
        to_std_order(compare_slices(self.as_slice(), other.as_slice()))
    }
}

impl<'a> PartialEq<&'a [u8]> for SmallBytes {
    fn eq(&self, other: &&'a [u8]) -> (r: bool) {
        slices_equal(self.as_slice(), other)
    }
}

impl<'a> vstd::std_specs::cmp::PartialEqSpecImpl<&'a [u8]> for SmallBytes {
    open spec fn obeys_eq_spec() -> bool {
        true
    }

    open spec fn eq_spec(&self, other: &&'a [u8]) -> bool {
        self@ == other@
    }
}

impl core::hash::Hash for SmallBytes {
    /// Hashes the content as a slice, whatever the representation.
    fn hash<H: core::hash::Hasher>(&self, state: &mut H) {
        hash_slice(self.as_slice(), state)
    }
}

impl PartialEq for TinyBytes {
    fn eq(&self, other: &TinyBytes) -> (r: bool) {
        slices_equal(self.as_bytes(), other.as_bytes())
    }
}

impl vstd::std_specs::cmp::PartialEqSpecImpl for TinyBytes {
    open spec fn obeys_eq_spec() -> bool {
        true
    }

    open spec fn eq_spec(&self, other: &TinyBytes) -> bool {
        self@ == other@
    }
}

impl Eq for TinyBytes {}

impl PartialOrd for TinyBytes {
    fn partial_cmp(&self, other: &TinyBytes) -> (r: Option<Ordering>) {
        Some(to_std_order(compare_slices(self.as_bytes(), other.as_bytes())))
    }
}

impl vstd::std_specs::cmp::PartialOrdSpecImpl for TinyBytes {
    open spec fn obeys_partial_cmp_spec() -> bool {
        true
    }

    open spec fn partial_cmp_spec(&self, other: &TinyBytes) -> Option<Ordering> {
        Some(std_order(lex_order(self@, other@)))
    }
}

impl TinyBytes {
    /// The lexicographic order of the contents.
    pub fn cmp(&self, other: &TinyBytes) -> (r: Ordering)
        ensures
            r == std_order(lex_order(self@, other@)),
    {
        to_std_order(compare_slices(self.as_bytes(), other.as_bytes()))
    }
}

impl<'a> PartialEq<&'a [u8]> for TinyBytes {
    fn eq(&self, other: &&'a [u8]) -> (r: bool) {
        slices_equal(self.as_bytes(), other)
    }
}

impl<'a> vstd::std_specs::cmp::PartialEqSpecImpl<&'a [u8]> for TinyBytes {
    open spec fn obeys_eq_spec() -> bool {
        true
    }

    open spec fn eq_spec(&self, other: &&'a [u8]) -> bool {
        self@ == other@
    }
}

impl core::hash::Hash for TinyBytes {
    /// Hashes the content as a slice, whatever the representation.
    fn hash<H: core::hash::Hasher>(&self, state: &mut H) {
        hash_slice(self.as_bytes(), state)
    }
}

impl PartialEq for IString {
    fn eq(&self, other: &IString) -> (r: bool) {
        slices_equal(self.as_bytes(), other.as_bytes())
    }
}

impl vstd::std_specs::cmp::PartialEqSpecImpl for IString {
    open spec fn obeys_eq_spec() -> bool {
        true
    }

    open spec fn eq_spec(&self, other: &IString) -> bool {
        self.spec_bytes() == other.spec_bytes()
    }
}

impl Eq for IString {}

impl PartialOrd for IString {
    fn partial_cmp(&self, other: &IString) -> (r: Option<Ordering>) {
        Some(to_std_order(compare_slices(self.as_bytes(), other.as_bytes())))
    }
}

impl vstd::std_specs::cmp::PartialOrdSpecImpl for IString {
    open spec fn obeys_partial_cmp_spec() -> bool {
        true
    }

    open spec fn partial_cmp_spec(&self, other: &IString) -> Option<Ordering> {
        Some(std_order(lex_order(self.spec_bytes(), other.spec_bytes())))
    }
}

impl IString {
    /// The lexicographic order of the texts, byte by byte.
    pub fn cmp(&self, other: &IString) -> (r: Ordering)
        ensures
            r == std_order(lex_order(self.spec_bytes(), other.spec_bytes())),
    {
        to_std_order(compare_slices(self.as_bytes(), other.as_bytes()))
    }
}

impl<'a> PartialEq<&'a str> for IString {
    fn eq(&self, other: &&'a str) -> (r: bool) {
        slices_equal(self.as_bytes(), other.as_bytes())
    }
}

impl<'a> vstd::std_specs::cmp::PartialEqSpecImpl<&'a str> for IString {
    open spec fn obeys_eq_spec() -> bool {
        true
    }

    open spec fn eq_spec(&self, other: &&'a str) -> bool {
        self.spec_bytes() == other.spec_bytes()
    }
}

impl PartialEq<String> for IString {
    fn eq(&self, other: &String) -> (r: bool) {
        slices_equal(self.as_bytes(), other.as_str().as_bytes())
    }
}

impl vstd::std_specs::cmp::PartialEqSpecImpl<String> for IString {
    open spec fn obeys_eq_spec() -> bool {
        true
    }

    open spec fn eq_spec(&self, other: &String) -> bool {
        self.spec_bytes() == vstd::utf8::encode_utf8(other@)
    }
}

impl core::hash::Hash for IString {
    /// Hashes the text as a string slice, whatever the representation.
    fn hash<H: core::hash::Hasher>(&self, state: &mut H) {
        hash_str(self.as_str(), state)
    }
}

impl PartialEq for SmallString {
    fn eq(&self, other: &SmallString) -> (r: bool) {
        slices_equal(self.as_bytes(), other.as_bytes())
    }
}

impl vstd::std_specs::cmp::PartialEqSpecImpl for SmallString {
    open spec fn obeys_eq_spec() -> bool {
        true
    }

    open spec fn eq_spec(&self, other: &SmallString) -> bool {
        self.spec_bytes() == other.spec_bytes()
    }
}

impl Eq for SmallString {}

impl PartialOrd for SmallString {
    fn partial_cmp(&self, other: &SmallString) -> (r: Option<Ordering>) {
        Some(to_std_order(compare_slices(self.as_bytes(), other.as_bytes())))
    }
}

impl vstd::std_specs::cmp::PartialOrdSpecImpl for SmallString {
    open spec fn obeys_partial_cmp_spec() -> bool {
        true
    }

    open spec fn partial_cmp_spec(&self, other: &SmallString) -> Option<Ordering> {
        Some(std_order(lex_order(self.spec_bytes(), other.spec_bytes())))
    }
}

impl SmallString {
    /// The lexicographic order of the texts, byte by byte.
    pub fn cmp(&self, other: &SmallString) -> (r: Ordering)
        ensures
            r == std_order(lex_order(self.spec_bytes(), other.spec_bytes())),
    {
        to_std_order(compare_slices(self.as_bytes(), other.as_bytes()))
    }
}

impl<'a> PartialEq<&'a str> for SmallString {
    fn eq(&self, other: &&'a str) -> (r: bool) {
        slices_equal(self.as_bytes(), other.as_bytes())
    }
}

impl<'a> vstd::std_specs::cmp::PartialEqSpecImpl<&'a str> for SmallString {
    open spec fn obeys_eq_spec() -> bool {
        true
    }

    open spec fn eq_spec(&self, other: &&'a str) -> bool {
        self.spec_bytes() == other.spec_bytes()
    }
}

impl PartialEq<String> for SmallString {
    fn eq(&self, other: &String) -> (r: bool) {
        slices_equal(self.as_bytes(), other.as_str().as_bytes())
    }
}

impl vstd::std_specs::cmp::PartialEqSpecImpl<String> for SmallString {
    open spec fn obeys_eq_spec() -> bool {
        true
    }

    open spec fn eq_spec(&self, other: &String) -> bool {
        self.spec_bytes() == vstd::utf8::encode_utf8(other@)
    }
}

impl core::hash::Hash for SmallString {
    /// Hashes the text as a string slice, whatever the representation.
    fn hash<H: core::hash::Hasher>(&self, state: &mut H) {
        hash_str(self.as_str(), state)
    }
}

impl PartialEq for TinyString {
    fn eq(&self, other: &TinyString) -> (r: bool) {
        slices_equal(self.as_bytes(), other.as_bytes())
    }
}

impl vstd::std_specs::cmp::PartialEqSpecImpl for TinyString {
    open spec fn obeys_eq_spec() -> bool {
        true
    }

    open spec fn eq_spec(&self, other: &TinyString) -> bool {
        self.spec_bytes() == other.spec_bytes()
    }
}

impl Eq for TinyString {}

impl PartialOrd for TinyString {
    fn partial_cmp(&self, other: &TinyString) -> (r: Option<Ordering>) {
        Some(to_std_order(compare_slices(self.as_bytes(), other.as_bytes())))
    }
}

impl vstd::std_specs::cmp::PartialOrdSpecImpl for TinyString {
    open spec fn obeys_partial_cmp_spec() -> bool {
        true
    }

    open spec fn partial_cmp_spec(&self, other: &TinyString) -> Option<Ordering> {
        Some(std_order(lex_order(self.spec_bytes(), other.spec_bytes())))
    }
}

impl TinyString {
    /// The lexicographic order of the texts, byte by byte.
    pub fn cmp(&self, other: &TinyString) -> (r: Ordering)
        ensures
            r == std_order(lex_order(self.spec_bytes(), other.spec_bytes())),
    {
        to_std_order(compare_slices(self.as_bytes(), other.as_bytes()))
    }
}

impl<'a> PartialEq<&'a str> for TinyString {
    fn eq(&self, other: &&'a str) -> (r: bool) {
        slices_equal(self.as_bytes(), other.as_bytes())
    }
}

impl<'a> vstd::std_specs::cmp::PartialEqSpecImpl<&'a str> for TinyString {
    open spec fn obeys_eq_spec() -> bool {
        true
    }

    open spec fn eq_spec(&self, other: &&'a str) -> bool {
        self.spec_bytes() == other.spec_bytes()
    }
}

impl PartialEq<String> for TinyString {
    fn eq(&self, other: &String) -> (r: bool) {
        slices_equal(self.as_bytes(), other.as_str().as_bytes())
    }
}

impl vstd::std_specs::cmp::PartialEqSpecImpl<String> for TinyString {
    open spec fn obeys_eq_spec() -> bool {
        true
    }

    open spec fn eq_spec(&self, other: &String) -> bool {
        self.spec_bytes() == vstd::utf8::encode_utf8(other@)
    }
}

impl core::hash::Hash for TinyString {
    /// Hashes the text as a string slice, whatever the representation.
    fn hash<H: core::hash::Hasher>(&self, state: &mut H) {
        hash_str(self.as_str(), state)
    }
}

/// Two containers with the same content have the same length, are equal and
/// are ordered as equal, whether each is inline or on the
/// heap.
pub proof fn lemma_ibytes_content_decides(a: IBytes, b: IBytes)
    requires
        a.wf(),
        b.wf(),
        a@ == b@,
    ensures
        a.spec_len() == b.spec_len(),
        a.eq_spec(&b),
        a.partial_cmp_spec(&b) == Some(Ordering::Equal),
{
}

/// Two containers with the same content have the same length, are equal and
/// are ordered as equal, whether each is inline or on the
/// heap.
pub proof fn lemma_smallbytes_content_decides(a: SmallBytes, b: SmallBytes)
    requires
        a.wf(),
        b.wf(),
        a@ == b@,
    ensures
        a.spec_len() == b.spec_len(),
        a.eq_spec(&b),
        a.partial_cmp_spec(&b) == Some(Ordering::Equal),
{
}

/// Two strings with the same content have the same length, are equal and
/// are ordered as equal, whether each is inline or on the heap.
pub proof fn lemma_istring_content_decides(a: IString, b: IString)
    requires
        a.wf(),
        b.wf(),
        a.spec_bytes() == b.spec_bytes(),
    ensures
        a.spec_len() == b.spec_len(),
        a.eq_spec(&b),
        a.partial_cmp_spec(&b) == Some(Ordering::Equal),
{
}

/// Two strings with the same content have the same length, are equal and
/// are ordered as equal, whether each is inline or on the heap.
pub proof fn lemma_smallstring_content_decides(a: SmallString, b: SmallString)
    requires
        a.wf(),
        b.wf(),
        a.spec_bytes() == b.spec_bytes(),
    ensures
        a.spec_len() == b.spec_len(),
        a.eq_spec(&b),
        a.partial_cmp_spec(&b) == Some(Ordering::Equal),
{
}

} // verus!
