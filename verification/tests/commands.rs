use bdk_labels::annotation::{Annotation, RecordType};
use bdk_labels::commands::{
    format_annotation, import_wallet, new_annotation, removal, spendable_flag, CommandError, Removal,
};
use bdk_labels::tag::Tag;

#[test]
fn import_wallet_choice() {
    assert_eq!(import_wallet(Some("w".to_owned()), Some("file".to_owned()), true), Ok(Some("w".to_owned())));
    assert_eq!(import_wallet(None, Some("file".to_owned()), true), Ok(Some("file".to_owned())));
    assert_eq!(import_wallet(None, None, true), Ok(None));
    assert_eq!(import_wallet(Some("w".to_owned()), None, false), Ok(Some("w".to_owned())));
    assert_eq!(import_wallet(None, None, false), Err(CommandError::WalletRequired));
}

#[test]
fn removal_choice() {
    assert_eq!(removal(&vec!["kyc:".to_owned()], false), Ok(Removal::Tags));
    assert_eq!(removal(&vec!["kyc:".to_owned()], true), Ok(Removal::Tags));
    assert_eq!(removal(&vec![], true), Ok(Removal::Annotation));
    assert_eq!(removal(&vec![], false), Err(CommandError::ForceRequired));
}

#[test]
fn spendable_flags() {
    assert_eq!(spendable_flag(true, false), Some(true));
    assert_eq!(spendable_flag(false, true), Some(false));
    assert_eq!(spendable_flag(false, false), None);
}

#[test]
fn add_builds_annotation() {
    let a = new_annotation(
        RecordType::Tx,
        "abcd",
        Some("exchange withdrawal".to_owned()),
        None,
        &vec!["exchange:kraken".to_owned(), ":".to_owned()],
        false,
        false,
    );
    assert_eq!(
        a,
        Annotation {
            record_type: RecordType::Tx,
            ref_: "abcd".to_owned(),
            description: Some("exchange withdrawal".to_owned()),
            origin: None,
            spendable: None,
            tags: vec![Tag::parse("exchange:kraken").unwrap()],
        }
    );
}

#[test]
fn list_lines() {
    let a = Annotation {
        record_type: RecordType::Tx,
        ref_: "abcd".to_owned(),
        description: None,
        origin: None,
        spendable: None,
        tags: vec![],
    };
    assert_eq!(format_annotation(&a), "tx  abcd  -");
    let b = Annotation {
        record_type: RecordType::Output,
        description: Some("change".to_owned()),
        origin: Some("wpkh([aa])".to_owned()),
        tags: vec![Tag::parse("kyc:").unwrap(), Tag::parse("a:b").unwrap()],
        ..a
    };
    assert_eq!(format_annotation(&b), "output  abcd  change  [kyc:, a:b]  origin:wpkh([aa])");
}
