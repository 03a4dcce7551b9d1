use adelie::precedence::{
    all_digits, compare_bytes, compare_identifier, compare_pre_release, Order,
};

#[test]
fn all_digits_accepts_digits_only() {
    assert!(all_digits(b"0"));
    assert!(all_digits(b"0123456789"));
    assert!(all_digits(b""));
    assert!(!all_digits(b"12a"));
    assert!(!all_digits(b"-1"));
    assert!(!all_digits(b"1.2"));
    assert!(!all_digits(b"/"));
    assert!(!all_digits(b":"));
}

#[test]
fn compare_bytes_is_lexicographic() {
    assert_eq!(compare_bytes(b"", b""), Order::Equal);
    assert_eq!(compare_bytes(b"", b"a"), Order::Less);
    assert_eq!(compare_bytes(b"a", b""), Order::Greater);
    assert_eq!(compare_bytes(b"alpha", b"beta"), Order::Less);
    assert_eq!(compare_bytes(b"beta", b"alpha"), Order::Greater);
    assert_eq!(compare_bytes(b"rc", b"rc1"), Order::Less);
    assert_eq!(compare_bytes(b"rc1", b"rc1"), Order::Equal);
    assert_eq!(compare_bytes(b"B", b"a"), Order::Less);
}

#[test]
fn compare_identifier_puts_numbers_below_names() {
    assert_eq!(compare_identifier(b"999", b"a"), Order::Less);
    assert_eq!(compare_identifier(b"a", b"999"), Order::Greater);
    assert_eq!(compare_identifier(b"2", b"11"), Order::Less);
    assert_eq!(compare_identifier(b"11", b"2"), Order::Greater);
    assert_eq!(compare_identifier(b"007", b"7"), Order::Equal);
    assert_eq!(compare_identifier(b"0", b"000"), Order::Equal);
    assert_eq!(compare_identifier(b"10", b"09"), Order::Greater);
    assert_eq!(compare_identifier(b"123", b"124"), Order::Less);
    assert_eq!(compare_identifier(b"1a", b"2"), Order::Greater);
    assert_eq!(compare_identifier(b"x-1", b"x-2"), Order::Less);
}

#[test]
fn compare_pre_release_goes_identifier_by_identifier() {
    assert_eq!(compare_pre_release(b"", b""), Order::Equal);
    assert_eq!(compare_pre_release(b"", b"rc.1"), Order::Greater);
    assert_eq!(compare_pre_release(b"rc.1", b""), Order::Less);
    assert_eq!(compare_pre_release(b"alpha", b"alpha.1"), Order::Less);
    assert_eq!(compare_pre_release(b"alpha.1", b"alpha"), Order::Greater);
    assert_eq!(compare_pre_release(b"alpha.1", b"alpha.beta"), Order::Less);
    assert_eq!(compare_pre_release(b"beta.2", b"beta.11"), Order::Less);
    assert_eq!(compare_pre_release(b"beta.11", b"rc.1"), Order::Less);
    assert_eq!(compare_pre_release(b"rc.1", b"rc.1"), Order::Equal);
    assert_eq!(compare_pre_release(b"rc.1.x", b"rc.1.x.0"), Order::Less);
    assert_eq!(compare_pre_release(b"1.2.3", b"1.2.10"), Order::Less);
}
