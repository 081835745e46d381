use std::cmp::Ordering;
use std::collections::hash_map::DefaultHasher;
use std::hash::{Hash, Hasher};

use istring::small::{Heap, Inline, SmallBytes, SmallString, INLINE_CAPACITY, MAX_CAPACITY};

fn hash_of<T: Hash + ?Sized>(value: &T) -> u64 {
    let mut hasher = DefaultHasher::new();
    value.hash(&mut hasher);
    hasher.finish()
}

#[test]
fn constants_of_the_small_variant() {
    assert_eq!(INLINE_CAPACITY, 15);
    assert_eq!(MAX_CAPACITY, usize::MAX / 2);
}

#[test]
fn small_bytes_new_is_empty() {
    let b = SmallBytes::new();
    assert!(b.is_inline());
    assert_eq!(b.len(), 0);
    assert_eq!(b.as_slice(), b"");
}

#[test]
fn small_bytes_threshold() {
    let at = [3u8; 15];
    let over = [3u8; 16];
    let a = SmallBytes::from(&at);
    let b = SmallBytes::from(&over);
    assert!(a.is_inline());
    assert!(!b.is_inline());
    assert_eq!(a.as_slice(), &at);
    assert_eq!(b.as_slice(), &over);
    assert_eq!(b.len(), 16);
    assert_ne!(b.as_slice().as_ptr(), over.as_ptr());
}

#[test]
fn small_bytes_round_trip() {
    for len in [0usize, 1, 14, 15, 16, 17, 100] {
        let source: Vec<u8> = (0..len).map(|i| (i * 3 % 256) as u8).collect();
        let b = SmallBytes::from(&source);
        assert_eq!(b.as_slice(), &source[..]);
        assert_eq!(b.is_inline(), len <= 15);
        let v = SmallBytes::from_vec(source.clone());
        assert_eq!(v.as_slice(), &source[..]);
        assert_eq!(v.is_inline(), len <= 15);
        assert_eq!(v.into_vec(), source);
    }
}

#[test]
fn small_bytes_from_vec_drops_spare_capacity() {
    let mut v = Vec::with_capacity(1000);
    v.extend_from_slice(&[1u8; 20]);
    let b = SmallBytes::from_vec(v);
    assert!(!b.is_inline());
    let heap = b.to_heap();
    assert_eq!(heap.data.len(), 20);
    assert_eq!(&heap.data[..], &[1u8; 20]);
    let back = SmallBytes::from_heap(heap);
    assert_eq!(back.into_vec().capacity(), 20);
}

#[test]
fn small_bytes_parts() {
    let inline = SmallBytes::from(b"abc").to_inline();
    assert_eq!(inline.len, 3);
    assert_eq!(&inline.data[..3], b"abc");
    assert_eq!(SmallBytes::from_inline(inline).as_slice(), b"abc");
    let held = Inline::holding(b"0123456789abcde");
    assert_eq!(held.len, 15);
    assert_eq!(&held.data, b"0123456789abcde");
    let heap = SmallBytes::from_heap(Heap { data: vec![7u8; 3].into_boxed_slice() });
    assert!(!heap.is_inline());
    assert_eq!(heap.as_slice(), &[7u8; 3]);
}

#[test]
fn small_bytes_clone_is_independent() {
    let source = SmallBytes::from(&[4u8; 40]);
    let copy = source.clone();
    assert!(!copy.is_inline());
    assert_eq!(copy, source);
    assert_ne!(copy.as_slice().as_ptr(), source.as_slice().as_ptr());
    let mut v = copy.into_vec();
    v[0] = 9;
    assert_eq!(source.as_slice(), &[4u8; 40]);
    let short = SmallBytes::from(b"ab");
    assert!(short.clone().is_inline());
    assert_eq!(short.clone(), short);
}

#[test]
fn small_representation_does_not_show() {
    let inline = SmallBytes::from(b"same");
    let heap = SmallBytes::from_heap(Heap { data: b"same".to_vec().into_boxed_slice() });
    assert!(inline.is_inline());
    assert!(!heap.is_inline());
    assert!(inline == heap);
    assert_eq!(inline.len(), heap.len());
    assert_eq!(inline.cmp(&heap), Ordering::Equal);
    assert_eq!(inline.partial_cmp(&heap), Some(Ordering::Equal));
    assert_eq!(hash_of(&inline), hash_of(&heap));
    assert_eq!(hash_of(&inline), hash_of(&b"same"[..]));
    assert!(inline == &b"same"[..]);
    assert!(SmallBytes::from(b"a") < SmallBytes::from(b"b"));
}

#[test]
fn small_string_basics() {
    let s = SmallString::new();
    assert!(s.is_inline());
    assert_eq!(s.as_str(), "");
    let a = SmallString::from("fifteen bytes!!");
    assert!(a.is_inline());
    assert_eq!(a.len(), 15);
    let b = SmallString::from("sixteen bytes!!!");
    assert!(!b.is_inline());
    assert_eq!(b.as_str(), "sixteen bytes!!!");
    assert_eq!(b.as_bytes(), b"sixteen bytes!!!");
    assert_eq!(b.clone().into_string(), "sixteen bytes!!!");
    assert_eq!(b.clone().into_bytes(), b"sixteen bytes!!!".to_vec());
    assert!(!b.clone().is_inline());
    assert!(a < b);
    assert_eq!(a.cmp(&b), "fifteen bytes!!".cmp("sixteen bytes!!!"));
    assert!(b == "sixteen bytes!!!");
    assert!(b == String::from("sixteen bytes!!!"));
    assert_eq!(hash_of(&b), hash_of("sixteen bytes!!!"));
    assert!(b.ends_with("!!!"));
}

#[test]
fn small_string_from_string() {
    let s = SmallString::from_string(String::from("short"));
    assert!(s.is_inline());
    assert_eq!(s.as_str(), "short");
    let l = SmallString::from_string(String::from("a string of more than fifteen bytes"));
    assert!(!l.is_inline());
    assert_eq!(l.as_str(), "a string of more than fifteen bytes");
}

#[test]
fn small_string_from_utf8() {
    let ok = SmallString::from_utf8(SmallBytes::from("grüße".as_bytes())).unwrap();
    assert_eq!(ok.as_str(), "grüße");
    let err = SmallString::from_utf8(SmallBytes::from(&[0x80u8])).unwrap_err();
    assert_eq!(err.as_bytes(), &[0x80u8]);
    assert_eq!(err.utf8_error().valid_up_to(), 0);
    assert_eq!(err.into_bytes().as_slice(), &[0x80u8]);
    let long: Vec<u8> = b"sixteen good bytes and then \xff".to_vec();
    let err = SmallString::from_utf8(SmallBytes::from(&long)).unwrap_err();
    assert_eq!(err.utf8_error().valid_up_to(), 28);
    assert_eq!(err.utf8_error().error_len(), Some(1));
    let back = err.into_bytes();
    assert!(!back.is_inline());
    assert_eq!(back.as_slice(), &long[..]);
}

#[test]
fn small_string_from_char() {
    assert_eq!(SmallString::from_char('x').as_str(), "x");
    assert_eq!(SmallString::from_char('é').as_bytes(), &[0xc3, 0xa9]);
    assert_eq!(SmallString::from_char('🦀').as_bytes(), &[0xf0, 0x9f, 0xa6, 0x80]);
    assert!(SmallString::from_char('🦀').is_inline());
}

#[test]
fn small_string_from_iter_stays_inline_while_the_text_fits() {
    let chars: Vec<char> = "héllo".chars().collect();
    let s = SmallString::from_iter(&chars);
    assert!(s.is_inline());
    assert_eq!(s.as_str(), "héllo");
    assert_eq!(s.len(), 6);
    assert_eq!(SmallString::from_iter(&[]).as_str(), "");
    let fifteen: Vec<char> = "123456789012345".chars().collect();
    let t = SmallString::from_iter(&fifteen);
    assert!(t.is_inline());
    assert_eq!(t.as_str(), "123456789012345");
}

#[test]
fn small_string_from_iter_moves_on_to_the_heap() {
    let sixteen: Vec<char> = "1234567890123456".chars().collect();
    let s = SmallString::from_iter(&sixteen);
    assert!(!s.is_inline());
    assert_eq!(s.as_str(), "1234567890123456");
    let text = "fourteen bytes🦀 and a long tail after the crab";
    let chars: Vec<char> = text.chars().collect();
    let t = SmallString::from_iter(&chars);
    assert!(!t.is_inline());
    assert_eq!(t.as_str(), text);
    assert_eq!(t.len(), text.len());
    let crabs: Vec<char> = "🦀🦀🦀🦀".chars().collect();
    let u = SmallString::from_iter(&crabs);
    assert!(!u.is_inline());
    assert_eq!(u.as_str(), "🦀🦀🦀🦀");
    assert_eq!(u.len(), 16);
    assert_eq!(u.into_bytes().capacity(), 16);
}
