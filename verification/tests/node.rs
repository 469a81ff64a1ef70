use autobahnkreuz::node::{node_id, node_id_from};
use autobahnkreuz::router::{random_id, ID_LIMIT};

#[test]
fn node_id_is_the_first_number_plus_one() {
    assert_eq!(node_id("0"), Some(1));
    assert_eq!(node_id("3"), Some(4));
    assert_eq!(node_id("node-12"), Some(13));
    assert_eq!(node_id("node-12-of-30"), Some(13));
    assert_eq!(node_id("007"), Some(8));
}

#[test]
fn node_id_is_missing_without_a_number() {
    assert_eq!(node_id(""), None);
    assert_eq!(node_id("node"), None);
}

#[test]
fn node_id_must_fit_into_64_bits() {
    assert_eq!(node_id("18446744073709551614"), Some(u64::MAX));
    assert_eq!(node_id("18446744073709551615"), None);
    assert_eq!(node_id("18446744073709551616"), None);
    assert_eq!(node_id("99999999999999999999999"), None);
}

#[test]
fn node_id_takes_plain_digits_only() {
    // These are digits to the pattern, but they spell no numeral.
    assert_eq!(node_id("\u{663}"), None);
    assert_eq!(node_id_from(Some("+5".to_string())), None);
    assert_eq!(node_id_from(Some("".to_string())), None);
    assert_eq!(node_id_from(Some("12a".to_string())), None);
    assert_eq!(node_id_from(Some("41".to_string())), Some(42));
    assert_eq!(node_id_from(None), None);
}

#[test]
fn random_ids_have_at_most_56_bits() {
    assert_eq!(ID_LIMIT, (1u64 << 56) - 1);
    let mut seen_different = false;
    let first = random_id();
    for _ in 0..200 {
        let id = random_id();
        assert!(id < ID_LIMIT);
        if id != first {
            seen_different = true;
        }
    }
    assert!(seen_different);
}
