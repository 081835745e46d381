use istring::compare::{compare_slices, slices_equal, to_std_order, Order};
use istring::growth::next_power_of_two;

#[test]
fn next_power_of_two_values() {
    let cases: [(usize, usize); 12] = [
        (0, 1),
        (1, 1),
        (2, 2),
        (3, 4),
        (4, 4),
        (5, 8),
        (24, 32),
        (32, 32),
        (33, 64),
        (1000, 1024),
        (1 << 20, 1 << 20),
        ((1 << 20) + 1, 1 << 21),
    ];
    for (n, expected) in cases {
        assert_eq!(next_power_of_two(n), expected);
        assert_eq!(next_power_of_two(n), n.next_power_of_two());
    }
}

#[test]
fn compare_slices_values() {
    assert_eq!(compare_slices(b"", b""), Order::Equal);
    assert_eq!(compare_slices(b"a", b"a"), Order::Equal);
    assert_eq!(compare_slices(b"", b"a"), Order::Less);
    assert_eq!(compare_slices(b"a", b""), Order::Greater);
    assert_eq!(compare_slices(b"ab", b"ac"), Order::Less);
    assert_eq!(compare_slices(b"ac", b"ab"), Order::Greater);
    assert_eq!(compare_slices(b"ab", b"abc"), Order::Less);
    assert_eq!(compare_slices(b"abc", b"ab"), Order::Greater);
    assert_eq!(compare_slices(&[200], &[100, 1]), Order::Greater);
}

#[test]
fn slices_equal_values() {
    assert!(slices_equal(b"", b""));
    assert!(slices_equal(b"abc", b"abc"));
    assert!(!slices_equal(b"abc", b"abd"));
    assert!(!slices_equal(b"abc", b"ab"));
    assert!(!slices_equal(b"", b"a"));
}

#[test]
fn orders_translate() {
    assert_eq!(to_std_order(Order::Less), std::cmp::Ordering::Less);
    assert_eq!(to_std_order(Order::Equal), std::cmp::Ordering::Equal);
    assert_eq!(to_std_order(Order::Greater), std::cmp::Ordering::Greater);
}
