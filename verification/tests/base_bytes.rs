use std::cmp::Ordering;
use std::collections::hash_map::DefaultHasher;
use std::collections::HashMap;
use std::hash::{Hash, Hasher};

use istring::ibytes::{Heap, IBytes, Inline, INLINE_CAPACITY, MAX_CAPACITY};

fn hash_of<T: Hash + ?Sized>(value: &T) -> u64 {
    let mut hasher = DefaultHasher::new();
    value.hash(&mut hasher);
    hasher.finish()
}

#[test]
fn new_is_empty_and_inline() {
    let b = IBytes::new();
    assert!(b.is_inline());
    assert_eq!(b.len(), 0);
    assert_eq!(b.capacity(), INLINE_CAPACITY);
    assert_eq!(b.as_slice(), &[] as &[u8]);
}

#[test]
fn constants_of_the_base_variant() {
    assert_eq!(INLINE_CAPACITY, 23);
    assert_eq!(MAX_CAPACITY, usize::MAX / 2);
    assert_eq!(MAX_CAPACITY, isize::MAX as usize);
}

#[test]
fn with_capacity_goes_to_the_heap_only_past_the_inline_buffer() {
    let a = IBytes::with_capacity(0);
    assert!(a.is_inline());
    assert_eq!(a.capacity(), 23);
    let b = IBytes::with_capacity(23);
    assert!(b.is_inline());
    assert_eq!(b.capacity(), 23);
    let c = IBytes::with_capacity(24);
    assert!(!c.is_inline());
    assert_eq!(c.capacity(), 24);
    assert_eq!(c.len(), 0);
    let d = IBytes::with_capacity(100);
    assert_eq!(d.capacity(), 100);
    assert_eq!(d.as_slice(), &[] as &[u8]);
}

#[test]
fn round_trip_through_the_slice_view() {
    for len in [0usize, 1, 7, 22, 23, 24, 25, 64, 1000] {
        let source: Vec<u8> = (0..len).map(|i| (i * 7 % 256) as u8).collect();
        let b = IBytes::from(&source);
        assert_eq!(b.as_slice(), &source[..]);
        assert_eq!(b.len(), len);
        assert_eq!(b.is_inline(), len <= INLINE_CAPACITY);
    }
}

#[test]
fn threshold_between_inline_and_heap() {
    let at = vec![7u8; INLINE_CAPACITY];
    let over = vec![7u8; INLINE_CAPACITY + 1];
    let a = IBytes::from(&at);
    let b = IBytes::from(&over);
    assert!(a.is_inline());
    assert!(!b.is_inline());
    assert_eq!(a.as_slice(), &at[..]);
    assert_eq!(b.as_slice(), &over[..]);
    assert_eq!(a.capacity(), INLINE_CAPACITY);
    assert_eq!(b.capacity(), INLINE_CAPACITY + 1);
}

#[test]
fn pushes_grow_by_powers_of_two() {
    let mut b = IBytes::new();
    let mut expected: Vec<u8> = Vec::new();
    let mut reallocations = 0;
    let mut cap = b.capacity();
    for i in 0..1000u32 {
        b.push((i % 251) as u8);
        expected.push((i % 251) as u8);
        assert!(b.capacity() >= b.len());
        if b.capacity() != cap {
            reallocations += 1;
            cap = b.capacity();
            assert_eq!(cap, 16 << reallocations);
            assert!(b.len() > (8 << reallocations));
        }
    }
    assert_eq!(b.as_slice(), &expected[..]);
    assert_eq!(b.capacity(), 1024);
    assert_eq!(reallocations, 6);
}

#[test]
fn the_push_that_leaves_the_inline_buffer() {
    let mut b = IBytes::from(&[1u8; 23]);
    assert!(b.is_inline());
    b.push(2);
    assert!(!b.is_inline());
    assert_eq!(b.len(), 24);
    assert_eq!(b.capacity(), 32);
    assert_eq!(b[23], 2);
    assert_eq!(&b[..23], &[1u8; 23]);
}

#[test]
fn extend_from_slice_appends() {
    let mut b = IBytes::from(b"abc");
    b.extend_from_slice(b"");
    assert_eq!(b.as_slice(), b"abc");
    b.extend_from_slice(b"def");
    assert_eq!(b.as_slice(), b"abcdef");
    assert!(b.is_inline());
    b.extend_from_slice(&[b'x'; 27]);
    assert_eq!(b.len(), 33);
    assert!(!b.is_inline());
    assert_eq!(b.capacity(), 64);
    assert_eq!(&b[..6], b"abcdef");
    assert_eq!(&b[6..], &[b'x'; 27]);
    b.extend_from_slice(&[b'y'; 31]);
    assert_eq!(b.len(), 64);
    assert_eq!(b.capacity(), 64);
    b.extend_from_slice(b"z");
    assert_eq!(b.capacity(), 128);
}

#[test]
fn extend_within_a_capacity_that_is_no_power_of_two() {
    let mut b = IBytes::with_capacity(100);
    b.extend_from_slice(&[1u8; 100]);
    assert_eq!(b.capacity(), 100);
    b.push(2);
    assert_eq!(b.capacity(), 128);
    assert_eq!(b.len(), 101);
}

#[test]
fn move_to_heap_then_shrink_returns_inline() {
    let mut b = IBytes::from(b"short");
    b.move_to_heap(40);
    assert!(!b.is_inline());
    assert_eq!(b.capacity(), 40);
    assert_eq!(b.as_slice(), b"short");
    b.move_to_heap(80);
    assert_eq!(b.capacity(), 40);
    b.shrink();
    assert!(b.is_inline());
    assert_eq!(b.capacity(), INLINE_CAPACITY);
    assert_eq!(b.as_slice(), b"short");
}

#[test]
fn move_to_heap_with_exactly_the_length() {
    let mut b = IBytes::from(b"abc");
    b.move_to_heap(3);
    assert!(!b.is_inline());
    assert_eq!(b.capacity(), 3);
    assert_eq!(b.as_slice(), b"abc");
}

#[test]
fn shrink_of_an_inline_container_changes_nothing() {
    let mut b = IBytes::from(b"inline");
    b.shrink();
    assert!(b.is_inline());
    assert_eq!(b.as_slice(), b"inline");
}

#[test]
fn shrink_of_long_content_cuts_the_capacity_to_the_length() {
    let mut b = IBytes::with_capacity(1000);
    b.extend_from_slice(&[9u8; 30]);
    assert_eq!(b.capacity(), 1000);
    b.shrink();
    assert!(!b.is_inline());
    assert_eq!(b.capacity(), 30);
    assert_eq!(b.as_slice(), &[9u8; 30]);
    let heap = b.to_heap();
    assert_eq!(heap.cap, 30);
    assert!(heap.buf.capacity() < 1000);
    assert!(heap.buf.capacity() >= 30);
}

#[test]
fn reserve_adds_to_the_capacity() {
    let mut b = IBytes::from(b"abc");
    b.reserve(0);
    assert!(b.is_inline());
    assert_eq!(b.capacity(), 23);
    b.reserve(10);
    assert!(!b.is_inline());
    assert_eq!(b.capacity(), 33);
    assert_eq!(b.as_slice(), b"abc");
    b.reserve(7);
    assert_eq!(b.capacity(), 40);
    assert!(b.to_heap().buf.capacity() >= 40);
}

#[test]
fn reserve_exact_always_ends_on_the_heap() {
    let mut b = IBytes::from(b"abc");
    b.reserve_exact(0);
    assert!(!b.is_inline());
    assert_eq!(b.capacity(), 23);
    b.reserve_exact(5);
    assert_eq!(b.capacity(), 28);
    assert_eq!(b.as_slice(), b"abc");
}

#[test]
fn set_len_shortens() {
    let mut b = IBytes::from(b"abcdef");
    b.set_len(6);
    assert_eq!(b.as_slice(), b"abcdef");
    b.set_len(2);
    assert_eq!(b.as_slice(), b"ab");
    assert!(b.is_inline());
    let mut h = IBytes::from(&[5u8; 40]);
    h.set_len(10);
    assert_eq!(h.as_slice(), &[5u8; 10]);
    assert!(!h.is_inline());
    assert_eq!(h.capacity(), 40);
    h.set_len(0);
    assert_eq!(h.len(), 0);
}

#[test]
fn from_vec_takes_the_buffer_over() {
    let empty = IBytes::from_vec(Vec::new());
    assert!(empty.is_inline());
    assert_eq!(empty.len(), 0);
    let short = IBytes::from_vec(vec![1, 2, 3]);
    assert!(!short.is_inline());
    assert_eq!(short.capacity(), 3);
    assert_eq!(short.as_slice(), &[1, 2, 3]);
    let v = vec![4u8; 50];
    let ptr = v.as_ptr();
    let long = IBytes::from_vec(v);
    assert_eq!(long.as_slice().as_ptr(), ptr);
    assert_eq!(long.capacity(), 50);
}

#[test]
fn into_vec_gives_the_content() {
    assert_eq!(IBytes::new().into_vec(), Vec::<u8>::new());
    assert_eq!(IBytes::from(b"abc").into_vec(), b"abc".to_vec());
    let long = IBytes::from(&[3u8; 99]);
    let ptr = long.as_slice().as_ptr();
    let v = long.into_vec();
    assert_eq!(v, vec![3u8; 99]);
    assert_eq!(v.as_ptr(), ptr);
}

#[test]
fn inline_and_heap_parts() {
    let b = IBytes::from(b"xyz");
    let inline = b.to_inline();
    assert_eq!(inline.len, 3);
    assert_eq!(&inline.data[..3], b"xyz");
    let back = IBytes::from_inline(inline);
    assert_eq!(back.as_slice(), b"xyz");
    assert!(back.is_inline());

    let mut data = [0u8; INLINE_CAPACITY];
    data[0] = b'q';
    let one = IBytes::from_inline(Inline { data, len: 1 });
    assert_eq!(one.as_slice(), b"q");

    let h = IBytes::from_heap(Heap { buf: vec![1, 2], cap: 10 });
    assert!(!h.is_inline());
    assert_eq!(h.capacity(), 10);
    assert_eq!(h.as_slice(), &[1, 2]);
    let heap = h.to_heap();
    assert_eq!(heap.buf, vec![1, 2]);
    assert_eq!(heap.cap, 10);
}

#[test]
fn inline_buffers_append() {
    let a = Inline::empty();
    assert_eq!(a.len, 0);
    assert_eq!(a.data, [0u8; INLINE_CAPACITY]);
    let b = a.appended(b"ab").appended(b"").appended(b"cd");
    assert_eq!(b.len, 4);
    assert_eq!(&b.data[..4], b"abcd");
    let full = b.appended(&[1u8; 19]);
    assert_eq!(full.len, 23);
    assert_eq!(&full.data[4..], &[1u8; 19]);
}

#[test]
fn a_clone_is_independent_of_its_source() {
    let source = IBytes::from(&[1u8; 40]);
    let mut copy = source.clone();
    assert_eq!(copy, source);
    assert_ne!(copy.as_slice().as_ptr(), source.as_slice().as_ptr());
    copy.push(2);
    copy.extend_from_slice(&[3u8; 100]);
    copy.set_len(5);
    copy.shrink();
    assert_eq!(source.as_slice(), &[1u8; 40]);
    assert_eq!(source.len(), 40);
    assert_eq!(copy.as_slice(), &[1u8; 5]);
}

#[test]
fn a_clone_has_no_spare_capacity() {
    let mut b = IBytes::with_capacity(500);
    b.extend_from_slice(&[8u8; 30]);
    let c = b.clone();
    assert_eq!(c.capacity(), 30);
    assert!(!c.is_inline());
    let mut short = IBytes::from(b"abc");
    short.move_to_heap(64);
    let d = short.clone();
    assert!(d.is_inline());
    assert_eq!(d.as_slice(), b"abc");
}

#[test]
fn the_representation_does_not_show() {
    let inline = IBytes::from(b"same content");
    let mut heap = IBytes::from(b"same content");
    heap.move_to_heap(100);
    assert!(inline.is_inline());
    assert!(!heap.is_inline());
    assert_eq!(inline.len(), heap.len());
    assert_eq!(inline.as_slice(), heap.as_slice());
    assert!(inline == heap);
    assert!(!(inline != heap));
    assert_eq!(inline.partial_cmp(&heap), Some(Ordering::Equal));
    assert_eq!(inline.cmp(&heap), Ordering::Equal);
    assert!(inline <= heap && inline >= heap && !(inline < heap) && !(inline > heap));
    assert_eq!(hash_of(&inline), hash_of(&heap));
    assert_eq!(hash_of(&inline), hash_of(&b"same content"[..]));
    assert_ne!(hash_of(&inline), hash_of(&IBytes::from(b"other content")));
}

#[test]
fn order_is_lexicographic() {
    let cases: [(&[u8], &[u8], Ordering); 8] = [
        (b"", b"", Ordering::Equal),
        (b"", b"a", Ordering::Less),
        (b"a", b"", Ordering::Greater),
        (b"abc", b"abd", Ordering::Less),
        (b"abd", b"abc", Ordering::Greater),
        (b"ab", b"abc", Ordering::Less),
        (b"b", b"abc", Ordering::Greater),
        (&[0xff], &[0x00, 0x01], Ordering::Greater),
    ];
    for (a, b, expected) in cases {
        let x = IBytes::from(a);
        let mut y = IBytes::from(b);
        y.move_to_heap(64);
        assert_eq!(x.cmp(&y), expected);
        assert_eq!(x.partial_cmp(&y), Some(expected));
        assert_eq!(x == y, expected == Ordering::Equal);
        assert_eq!(x < y, expected == Ordering::Less);
        assert_eq!(x.cmp(&y), a.cmp(b));
    }
}

#[test]
fn equality_with_slices() {
    let b = IBytes::from(b"abc");
    assert!(b == &b"abc"[..]);
    assert!(b != &b"abd"[..]);
    assert!(b != &b"ab"[..]);
}

#[test]
fn lookup_in_a_map_by_slice() {
    let mut map: HashMap<IBytes, u32> = HashMap::new();
    map.insert(IBytes::from(b"key"), 1);
    let mut long = IBytes::from(b"another key");
    long.move_to_heap(64);
    map.insert(long, 2);
    assert_eq!(map.get(&b"key"[..]), Some(&1));
    assert_eq!(map.get(&b"another key"[..]), Some(&2));
    assert_eq!(map.get(&IBytes::from(b"another key")), Some(&2));
    assert_eq!(map.get(&b"missing"[..]), None);
}

#[test]
fn deref_and_as_ref_give_the_content() {
    let b = IBytes::from(b"hello");
    let s: &[u8] = &b;
    assert_eq!(s, b"hello");
    let r: &[u8] = b.as_ref();
    assert_eq!(r, b"hello");
    assert_eq!(b.iter().copied().max(), Some(b'o'));
    assert!(b.starts_with(b"he"));
}
