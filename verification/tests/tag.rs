use bdk_labels::tag::Tag;

#[test]
fn parse_boolean_tag() {
    let tag = Tag::parse("kyc:").unwrap();
    assert_eq!(tag.segments(), &["kyc"]);
    assert_eq!(tag.to_token(), "kyc:");
}

#[test]
fn parse_key_value_tag() {
    let tag = Tag::parse("project:income").unwrap();
    assert_eq!(tag.segments(), &["project", "income"]);
    assert_eq!(tag.to_token(), "project:income");
}

#[test]
fn parse_hierarchical_tag() {
    let tag = Tag::parse("debit:expenses:groceries").unwrap();
    assert_eq!(tag.segments(), &["debit", "expenses", "groceries"]);
    assert_eq!(tag.to_token(), "debit:expenses:groceries");
}

#[test]
fn parse_drops_empty_segments() {
    let tag = Tag::parse("::a::b:").unwrap();
    assert_eq!(tag.segments(), &["a", "b"]);
    assert_eq!(tag.to_token(), "a:b");
}

#[test]
fn parse_without_segments_is_none() {
    assert!(Tag::parse("").is_none());
    assert!(Tag::parse(":::").is_none());
}

#[test]
fn new_rejects_empty_segments() {
    assert!(Tag::new(vec![]).is_none());
    assert!(Tag::new(vec!["a".to_owned(), String::new()]).is_none());
    let tag = Tag::new(vec!["a".to_owned(), "b c".to_owned()]).unwrap();
    assert_eq!(tag.segments(), &["a", "b c"]);
}

#[test]
fn token_roundtrip_single_and_nested() {
    for segs in [vec!["kyc"], vec!["cost_basis", "20260428"], vec!["credit", "income", "pizzashop"]] {
        let tag = Tag::new(segs.iter().map(|s| s.to_string()).collect()).unwrap();
        let back = Tag::parse(&tag.to_token()).unwrap();
        assert_eq!(back, tag);
    }
}

#[test]
fn parse_keeps_non_ascii_segments() {
    let tag = Tag::parse("café:ünïcode").unwrap();
    assert_eq!(tag.segments(), &["café", "ünïcode"]);
}
