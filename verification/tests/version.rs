use adelie::precedence::Order;
use adelie::version::{ParseError, Version};

fn parsed(text: &str) -> Version {
    Version::parse(text).unwrap()
}

#[test]
fn parse_reads_the_three_numbers() {
    let v = parsed("1.2.3");
    assert_eq!((v.major, v.minor, v.patch), (1, 2, 3));
    assert!(v.pre.is_empty());
    assert!(v.build.is_empty());
}

#[test]
fn parse_reads_pre_release_and_build() {
    let v = parsed("1.4.0-rc.1+build.5");
    assert_eq!((v.major, v.minor, v.patch), (1, 4, 0));
    assert_eq!(v.pre, b"rc.1".to_vec());
    assert_eq!(v.build, b"build.5".to_vec());
}

#[test]
fn parse_is_lenient() {
    let v = parsed("v1.2");
    assert_eq!((v.major, v.minor, v.patch), (1, 2, 0));
    let w = parsed("1");
    assert_eq!((w.major, w.minor, w.patch), (1, 0, 0));
    let x = parsed("1.2.3.Final");
    assert!(x.pre.is_empty());
    assert_eq!(x.build, b"Final".to_vec());
}

#[test]
fn parse_rejects_what_is_no_version() {
    assert_eq!(Version::parse("not a version").err(), Some(ParseError::InvalidVersion));
    assert_eq!(Version::parse("").err(), Some(ParseError::InvalidVersion));
}

#[test]
fn is_stable_tells_releases_from_pre_releases() {
    assert!(parsed("1.3.0").is_stable());
    assert!(parsed("1.3.0+build").is_stable());
    assert!(!parsed("1.4.0-rc.1").is_stable());
    assert!(!parsed("1.4.0-0").is_stable());
    assert!(!parsed("1.2.3.rc1").is_stable());
    assert!(parsed("1.0.0+a-b").is_stable());
    assert!(parsed("1.2.3.Final").is_stable());
}

#[test]
fn compare_orders_numbers_numerically() {
    assert_eq!(parsed("1.2.0").compare(&parsed("1.10.0")), Order::Less);
    assert_eq!(parsed("2.0.0").compare(&parsed("1.99.99")), Order::Greater);
    assert_eq!(parsed("1.2.3").compare(&parsed("1.2.4")), Order::Less);
    assert_eq!(parsed("1.2.3").compare(&parsed("1.2.3")), Order::Equal);
}

#[test]
fn compare_puts_a_pre_release_below_its_release() {
    assert_eq!(parsed("1.4.0-rc.1").compare(&parsed("1.4.0")), Order::Less);
    assert_eq!(parsed("1.4.0").compare(&parsed("1.4.0-rc.1")), Order::Greater);
    assert_eq!(parsed("1.4.0-rc.1").compare(&parsed("1.3.9")), Order::Greater);
}

#[test]
fn compare_orders_pre_release_tags() {
    let chain = [
        "1.0.0-alpha",
        "1.0.0-alpha.1",
        "1.0.0-alpha.beta",
        "1.0.0-beta",
        "1.0.0-beta.2",
        "1.0.0-beta.11",
        "1.0.0-rc.1",
        "1.0.0",
    ];
    for i in 0..chain.len() {
        for j in 0..chain.len() {
            let expected = if i < j {
                Order::Less
            } else if i == j {
                Order::Equal
            } else {
                Order::Greater
            };
            assert_eq!(parsed(chain[i]).compare(&parsed(chain[j])), expected);
        }
    }
}

#[test]
fn compare_ignores_build_metadata() {
    assert_eq!(parsed("1.2.3+a").compare(&parsed("1.2.3+b")), Order::Equal);
}

#[test]
fn compare_reads_long_numeric_identifiers_by_value() {
    let small = Version { major: 1, minor: 0, patch: 0, pre: b"99999999999999999999".to_vec(), build: vec![] };
    let large = Version { major: 1, minor: 0, patch: 0, pre: b"100000000000000000000".to_vec(), build: vec![] };
    let padded = Version { major: 1, minor: 0, patch: 0, pre: b"0099999999999999999999".to_vec(), build: vec![] };
    assert_eq!(small.compare(&large), Order::Less);
    assert_eq!(large.compare(&small), Order::Greater);
    assert_eq!(small.compare(&padded), Order::Equal);
    assert_eq!(padded.compare(&large), Order::Less);
}

#[test]
fn compare_is_antisymmetric_and_transitive_on_samples() {
    let samples = ["0.9.0", "1.0.0-1", "1.0.0-a", "1.0.0-a.1", "1.0.0", "1.0.0+x", "1.0.1-rc.1", "1.0.1"];
    let versions: Vec<Version> = samples.iter().map(|s| parsed(s)).collect();
    for a in &versions {
        assert_eq!(a.compare(a), Order::Equal);
        for b in &versions {
            let ab = a.compare(b);
            let ba = b.compare(a);
            let reversed = match ab {
                Order::Less => Order::Greater,
                Order::Equal => Order::Equal,
                Order::Greater => Order::Less,
            };
            assert_eq!(ba, reversed);
            for c in &versions {
                let bc = b.compare(c);
                if ab != Order::Greater && bc != Order::Greater {
                    let expected = if ab == Order::Equal { bc } else { ab };
                    assert_eq!(a.compare(c), expected);
                }
            }
        }
    }
}

#[test]
fn compare_agrees_with_semver_where_no_build_metadata_is_involved() {
    let samples = [
        "0.0.1", "0.1.0", "0.1.0-alpha", "0.1.0-alpha.0", "0.1.0-alpha.1", "0.1.0-alpha.a",
        "0.1.0-beta", "0.1.0-1", "0.1.0-2", "0.1.0-10", "0.1.0-x.7.z.92", "0.1.0-x-y-z.--",
        "1.0.0", "1.0.0-rc.1", "1.0.0-rc.2", "1.0.0-rc.10", "1.0.0-rc", "1.0.1", "1.1.0",
        "2.0.0", "10.0.0", "v3", "4.5", "6.7.8.rc9",
    ];
    for a in samples {
        for b in samples {
            let expected = match lenient_semver::parse(a).unwrap().cmp(&lenient_semver::parse(b).unwrap()) {
                std::cmp::Ordering::Less => Order::Less,
                std::cmp::Ordering::Equal => Order::Equal,
                std::cmp::Ordering::Greater => Order::Greater,
            };
            assert_eq!(parsed(a).compare(&parsed(b)), expected, "{} against {}", a, b);
        }
    }
}
