use confluence_updater::confluence::page::{filter_valid_labels, rejected_labels, valid_label};

fn pattern() -> regex::Regex {
    regex::Regex::new(r"^[a-z0-9\$%'+\-/=\_`{}|~]+$").unwrap()
}

#[test]
fn valid_label_is_the_pattern() {
    let pattern = pattern();
    for label in [
        "", "abc", "a-b", "a.b", "A", "page-sha/0a1b2c3d", "x\n", "\u{e9}", "a b", "$%'+-/=_`{}|~",
        "a~", "[", "a\\b", "0", "z9", "a:b", "a,b", "a^b", "a@b", "a\"b", "a&b", "a*b",
    ] {
        assert_eq!(valid_label(label), pattern.is_match(label), "{label:?}");
    }
    for code in 0u32..0x250 {
        let label = char::from_u32(code).unwrap().to_string();
        assert_eq!(valid_label(&label), pattern.is_match(&label), "{label:?}");
    }
}

#[test]
fn filter_valid_labels_keeps_order_and_drops_the_rest() {
    let labels: Vec<String> =
        ["docs", "Bad Label", "team/a", "", "x.y", "ok"].iter().map(|s| s.to_string()).collect();
    assert_eq!(filter_valid_labels(&labels), vec!["docs", "team/a", "ok"]);
    assert_eq!(rejected_labels(&labels), vec!["Bad Label", "", "x.y"]);
    assert!(filter_valid_labels(&[]).is_empty());
}
