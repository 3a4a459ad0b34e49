use bdk_labels::annotation::{Annotation, RecordType};
use bdk_labels::tag::Tag;

#[test]
fn record_type_names() {
    let all = [
        (RecordType::Tx, "tx"),
        (RecordType::Addr, "addr"),
        (RecordType::Pubkey, "pubkey"),
        (RecordType::Input, "input"),
        (RecordType::Output, "output"),
        (RecordType::Xpub, "xpub"),
    ];
    for (t, name) in all {
        assert_eq!(t.as_str(), name);
        assert_eq!(t.to_string(), name);
        assert_eq!(RecordType::from_str(name), Ok(t));
    }
}

#[test]
fn unknown_record_type_is_an_error() {
    let err = RecordType::from_str("TX").unwrap_err();
    assert_eq!(err.text, "TX");
    assert!(RecordType::from_str("").is_err());
    assert!(RecordType::from_str("outputs").is_err());
}

#[test]
fn annotation_holds_its_fields() {
    let a = Annotation {
        record_type: RecordType::Output,
        ref_: "abcd:0".to_owned(),
        description: Some("change".to_owned()),
        origin: None,
        spendable: Some(false),
        tags: vec![Tag::parse("kyc:").unwrap()],
    };
    let b = a.clone();
    assert_eq!(a, b);
}
