use gcp_impersonation::name_map::NameMap;
use gcp_impersonation::text::{
    decimal_text, has_prefix, join, parse_index, same_text, strip_prefix, trim_trailing_slashes,
};
use std::collections::BTreeMap;

#[test]
fn maps_keep_the_order_of_names() {
    let names = ["b", "a", "", "\u{10000}", "\u{ffff}", "ab", "\u{e9}", "z", "a"];
    let mut ours = NameMap::new();
    let mut theirs = BTreeMap::new();
    assert!(ours.is_empty());
    for (i, name) in names.iter().enumerate() {
        ours.insert(name.to_string(), i);
        theirs.insert(name.to_string(), i);
    }
    assert_eq!(ours.len(), theirs.len());
    let listed: Vec<(String, usize)> =
        ours.entries().iter().map(|e| (e.name.clone(), e.value)).collect();
    let expected: Vec<(String, usize)> = theirs.into_iter().collect();
    assert_eq!(listed, expected);
    assert_eq!(ours.get("a"), Some(&8));
    assert_eq!(ours.get("c"), None);
    let copy = ours.clone();
    assert_eq!(copy.get("\u{10000}"), Some(&3));
    assert_eq!(copy.len(), ours.len());
}

#[test]
fn numbers_in_decimal() {
    for n in [0u64, 7, 10, 305, u64::MAX] {
        assert_eq!(decimal_text(n), n.to_string());
    }
    for s in ["0", "+0", "00", "12", "+", "", "-1", "1 ", "\u{661}", "18446744073709551616"] {
        assert_eq!(parse_index(s), s.parse::<usize>().ok());
    }
}

#[test]
fn parts_of_texts() {
    assert!(has_prefix("identity.kind", "identity."));
    assert!(!has_prefix("ident", "identity."));
    assert_eq!(strip_prefix("identity.kind", "identity.").as_deref(), Some("kind"));
    assert_eq!(strip_prefix("kind", "identity."), None);
    assert!(same_text("\u{e9}", "\u{e9}"));
    assert!(!same_text("a", "ab"));
    assert_eq!(trim_trailing_slashes("http://x///"), "http://x");
    assert_eq!(trim_trailing_slashes("///"), "");
    assert_eq!(join(&vec![], " "), "");
    assert_eq!(join(&vec!["a".to_owned(), "b".to_owned()], ", "), "a, b");
}
