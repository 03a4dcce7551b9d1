use adelie::text::{same_text, trim_leading};

#[test]
fn same_text_compares_character_by_character() {
    assert!(same_text("", ""));
    assert!(same_text("https", "https"));
    assert!(!same_text("https", "http"));
    assert!(!same_text("http", "https"));
    assert!(!same_text("oci", "oct"));
    assert!(same_text("héllo ✓", "héllo ✓"));
    assert!(!same_text("héllo ✓", "hello ✓"));
}

#[test]
fn trim_leading_removes_every_leading_mark() {
    assert_eq!(trim_leading("v1.2.3", 'v'), "1.2.3");
    assert_eq!(trim_leading("vvv1", 'v'), "1");
    assert_eq!(trim_leading("1v", 'v'), "1v");
    assert_eq!(trim_leading("", 'v'), "");
    assert_eq!(trim_leading("vvv", 'v'), "");
    assert_eq!(trim_leading("ééa", 'é'), "a");
}
