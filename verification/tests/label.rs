use bdk_labels::label::Label;
use bdk_labels::tag::Tag;

#[test]
fn parse_description_only() {
    let label = Label::parse("groceries");
    assert_eq!(label.description.as_deref(), Some("groceries"));
    assert!(label.tags.is_empty());
}

#[test]
fn parse_with_tags() {
    let label = Label::parse("groceries ; kyc: project:income debit:expenses:groceries");
    assert_eq!(label.description.as_deref(), Some("groceries"));
    assert_eq!(label.tags.len(), 3);
    assert_eq!(label.tags[0].segments(), &["kyc"]);
    assert_eq!(label.tags[1].segments(), &["project", "income"]);
    assert_eq!(label.tags[2].segments(), &["debit", "expenses", "groceries"]);
}

#[test]
fn parse_tags_only() {
    let label = Label::parse(" ; kyc: project:income");
    assert!(label.description.is_none());
    assert_eq!(label.tags.len(), 2);
}

#[test]
fn empty_when_blank() {
    let label = Label::parse("");
    assert!(label.description.is_none());
    assert!(label.tags.is_empty());
    assert!(label.to_bip329_string().is_none());
}

#[test]
fn roundtrip() {
    let input = "groceries ; kyc: project:income debit:expenses:groceries";
    let label = Label::parse(input);
    assert_eq!(label.to_bip329_string().as_deref(), Some(input));
}

#[test]
fn roundtrip_description_only() {
    let input = "groceries";
    let label = Label::parse(input);
    assert_eq!(label.to_bip329_string().as_deref(), Some(input));
}

#[test]
fn empty_label_writes_nothing() {
    let label = Label::empty();
    assert!(label.description.is_none());
    assert!(label.tags.is_empty());
    assert!(label.to_bip329_string().is_none());
}

#[test]
fn parse_trims_description_and_splits_on_first_separator() {
    let label = Label::parse("  a ; b ; c:d ");
    assert_eq!(label.description.as_deref(), Some("a"));
    let tokens: Vec<String> = label.tags.iter().map(|t| t.to_token()).collect();
    assert_eq!(tokens, vec!["b:", ";:", "c:d"]);
}

#[test]
fn parse_splits_tags_on_any_whitespace_and_drops_empty_tokens() {
    let label = Label::parse("x ; a:\t\n b:c  ::: ");
    assert_eq!(label.description.as_deref(), Some("x"));
    assert_eq!(label.tags.len(), 2);
    assert_eq!(label.tags[0].segments(), &["a"]);
    assert_eq!(label.tags[1].segments(), &["b", "c"]);
}

#[test]
fn blank_description_is_none() {
    let label = Label::parse("   ");
    assert!(label.description.is_none());
    assert!(label.tags.is_empty());
}

#[test]
fn write_trims_description_and_omits_blank_one() {
    let label = Label { description: Some("  pizza  ".to_owned()), tags: vec![] };
    assert_eq!(label.to_bip329_string().as_deref(), Some("pizza"));
    let label = Label { description: Some("   ".to_owned()), tags: vec![Tag::parse("kyc:").unwrap()] };
    assert_eq!(label.to_bip329_string().as_deref(), Some(" ; kyc:"));
}

#[test]
fn written_label_parses_back() {
    let label = Label {
        description: Some("from Satoshi, for Pizza".to_owned()),
        tags: vec![
            Tag::parse("kyc").unwrap(),
            Tag::parse("cost_basis:20260428").unwrap(),
            Tag::parse("credit:income:pizzashop").unwrap(),
        ],
    };
    let text = label.to_bip329_string().unwrap();
    assert_eq!(text, "from Satoshi, for Pizza ; kyc: cost_basis:20260428 credit:income:pizzashop");
    assert_eq!(Label::parse(&text), label);
}
