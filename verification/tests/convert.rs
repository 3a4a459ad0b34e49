use bdk_labels::annotation::{Annotation, RecordType};
use bdk_labels::convert::{
    annotation_from_bip329_label, annotation_from_record, annotations_from_bip329, annotations_from_jsonl,
    annotations_to_bip329, bip329_label_from_annotation, label_from_record,
    record_from_annotation, validate_ref, Bip329Record, RefError,
};
use bdk_labels::tag::Tag;
use bip329::Labels;

const TXID: &str = "f91d0a8a78462bc59398f2c5d7a84fcff491c26ba54c4833478b202796c8aafd";
const ADDRESS: &str = "bc1q34aq5drpuwy3wgl9lhup9892qp6svr8ldzyy7c";

const JSONL: &str = r#"{"type": "tx", "ref": "f91d0a8a78462bc59398f2c5d7a84fcff491c26ba54c4833478b202796c8aafd", "label": "Transaction ; kyc: exchange:kraken", "origin": "wpkh([d34db33f/84'/0'/0'])"}
{"type": "addr", "ref": "bc1q34aq5drpuwy3wgl9lhup9892qp6svr8ldzyy7c", "label": "Address"}
{"type": "pubkey", "ref": "0283409659355b6d1cc3c32decd5d561abaac86c37a353b52895a5e6c196d6f448", "label": "Public Key"}
{"type": "input", "ref": "f91d0a8a78462bc59398f2c5d7a84fcff491c26ba54c4833478b202796c8aafd:0", "label": "Input"}
{"type": "output", "ref": "f91d0a8a78462bc59398f2c5d7a84fcff491c26ba54c4833478b202796c8aafd:1", "label": "Output", "spendable": false}
{"type": "xpub", "ref": "xpub661MyMwAqRbcFtXgS5sYJABqqG9YLmC4Q1Rdap9gSE8NqtwybGhePY2gZ29ESFjqJoCu1Rupje8YtGqsefD265TMg7usUDFdp6W1EGMcet8", "label": "Extended Public Key"}"#;

fn record(record_type: RecordType, ref_: &str, label: Option<&str>) -> Bip329Record {
    Bip329Record {
        record_type,
        ref_: ref_.to_owned(),
        label: label.map(str::to_owned),
        origin: None,
        spendable: None,
    }
}

#[test]
fn record_to_annotation_parses_label_and_defaults_spendable() {
    let a = annotation_from_record(record(RecordType::Output, "x:1", Some("change ; kyc:")));
    assert_eq!(a.record_type, RecordType::Output);
    assert_eq!(a.ref_, "x:1");
    assert_eq!(a.description.as_deref(), Some("change"));
    assert_eq!(a.spendable, Some(true));
    assert_eq!(a.tags, vec![Tag::parse("kyc:").unwrap()]);

    let mut r = record(RecordType::Addr, "a", None);
    r.origin = Some("o".to_owned());
    r.spendable = Some(false);
    let a = annotation_from_record(r);
    assert_eq!(a.origin, None);
    assert_eq!(a.spendable, None);
    assert!(a.description.is_none() && a.tags.is_empty());
}

#[test]
fn annotation_to_record_keeps_origin_only_on_transactions() {
    let a = Annotation {
        record_type: RecordType::Tx,
        ref_: TXID.to_owned(),
        description: Some("pizza".to_owned()),
        origin: Some("wpkh([deadbeef])".to_owned()),
        spendable: Some(false),
        tags: vec![Tag::parse("food:").unwrap()],
    };
    let r = record_from_annotation(a.clone());
    assert_eq!(r.label.as_deref(), Some("pizza ; food:"));
    assert_eq!(r.origin.as_deref(), Some("wpkh([deadbeef])"));
    assert_eq!(r.spendable, None);
    assert_eq!(annotation_from_record(r), Annotation { spendable: None, ..a.clone() });

    let mut b = a;
    b.record_type = RecordType::Output;
    b.spendable = None;
    let r = record_from_annotation(b);
    assert_eq!(r.origin, None);
    assert_eq!(r.spendable, Some(true));
}

#[test]
fn validate_ref_checks_each_kind() {
    assert_eq!(validate_ref(RecordType::Tx, TXID), Ok(()));
    assert_eq!(validate_ref(RecordType::Addr, ADDRESS), Ok(()));
    assert_eq!(validate_ref(RecordType::Input, &format!("{TXID}:0")), Ok(()));
    assert_eq!(validate_ref(RecordType::Pubkey, "anything"), Ok(()));
    assert_eq!(validate_ref(RecordType::Xpub, ""), Ok(()));
    match validate_ref(RecordType::Tx, "zz") {
        Err(RefError::InvalidTxid { text, .. }) => assert_eq!(text, "zz"),
        other => panic!("unexpected {other:?}"),
    }
    match validate_ref(RecordType::Addr, "not-an-address") {
        Err(RefError::InvalidAddress { text, .. }) => assert_eq!(text, "not-an-address"),
        other => panic!("unexpected {other:?}"),
    }
    match validate_ref(RecordType::Output, TXID) {
        Err(RefError::InvalidOutpoint { record_type, text, .. }) => {
            assert_eq!(record_type, RecordType::Output);
            assert_eq!(text, TXID);
        }
        other => panic!("unexpected {other:?}"),
    }
}

#[test]
fn label_from_record_rejects_bad_reference() {
    assert!(label_from_record(record(RecordType::Tx, TXID, Some("x"))).is_ok());
    match label_from_record(record(RecordType::Input, "nope", None)) {
        Err(RefError::InvalidOutpoint { record_type, text, .. }) => {
            assert_eq!(record_type, RecordType::Input);
            assert_eq!(text, "nope");
        }
        other => panic!("unexpected {other:?}"),
    }
}

#[test]
fn bip329_labels_roundtrip() {
    let labels = Labels::try_from_str(JSONL).unwrap();
    let annotations = annotations_from_bip329(labels.clone());
    assert_eq!(annotations.len(), 6);
    assert_eq!(annotations[0].record_type, RecordType::Tx);
    assert_eq!(annotations[0].ref_, TXID);
    assert_eq!(annotations[0].description.as_deref(), Some("Transaction"));
    assert_eq!(annotations[0].origin.as_deref(), Some("wpkh([d34db33f/84'/0'/0'])"));
    assert_eq!(annotations[0].tags.len(), 2);
    assert_eq!(annotations[1].ref_, ADDRESS);
    assert_eq!(annotations[4].spendable, Some(false));
    assert_eq!(annotations[3].ref_, format!("{TXID}:0"));
    let back = annotations_to_bip329(annotations).unwrap();
    assert_eq!(back, labels);
}

#[test]
fn single_label_conversions() {
    let labels = Labels::try_from_str(JSONL).unwrap();
    let first = labels.into_vec().remove(0);
    let a = annotation_from_bip329_label(first.clone());
    assert_eq!(a.description.as_deref(), Some("Transaction"));
    assert_eq!(bip329_label_from_annotation(a).unwrap(), first);
}

#[test]
fn conversion_stops_at_first_bad_reference() {
    let good = Annotation {
        record_type: RecordType::Pubkey,
        ref_: "02ab".to_owned(),
        description: None,
        origin: None,
        spendable: None,
        tags: vec![],
    };
    let bad1 = Annotation { record_type: RecordType::Tx, ref_: "bad1".to_owned(), ..good.clone() };
    let bad2 = Annotation { record_type: RecordType::Addr, ref_: "bad2".to_owned(), ..good.clone() };
    match annotations_to_bip329(vec![good, bad1, bad2]) {
        Err(RefError::InvalidTxid { text, .. }) => assert_eq!(text, "bad1"),
        other => panic!("unexpected {other:?}"),
    }
}

#[test]
fn jsonl_text_becomes_annotations() {
    let annotations = annotations_from_jsonl(JSONL).unwrap();
    assert_eq!(annotations.len(), 6);
    assert_eq!(annotations[0].description.as_deref(), Some("Transaction"));
    assert_eq!(annotations[0].tags.len(), 2);
    assert_eq!(annotations[2].record_type, RecordType::Pubkey);
    assert_eq!(annotations[5].record_type, RecordType::Xpub);
    assert!(annotations_from_jsonl("{not json").is_err());
    assert!(annotations_from_jsonl(r#"{"type": "tx", "ref": "zz"}"#).is_err());
}

#[test]
fn exported_labels_hold_the_written_fields() {
    let annotations = annotations_from_jsonl(JSONL).unwrap();
    let labels = annotations_to_bip329(annotations.clone()).unwrap().into_vec();
    assert_eq!(labels.len(), annotations.len());
    for (label, a) in labels.iter().zip(annotations.iter()) {
        assert_eq!(annotation_from_bip329_label(label.clone()), a.clone());
    }
}

#[test]
fn uppercase_txid_is_written_back_in_lowercase() {
    let upper = TXID.to_uppercase();
    let label = label_from_record(record(RecordType::Tx, &upper, None)).unwrap();
    assert_eq!(annotation_from_bip329_label(label).ref_, TXID);
}

#[test]
fn outpoint_index_must_be_canonical_u32() {
    assert_eq!(validate_ref(RecordType::Output, &format!("{TXID}:4294967295")), Ok(()));
    assert!(validate_ref(RecordType::Output, &format!("{TXID}:4294967296")).is_err());
    assert!(validate_ref(RecordType::Output, &format!("{TXID}:01")).is_err());
    assert!(validate_ref(RecordType::Output, &format!("{TXID}:+1")).is_err());
    assert!(validate_ref(RecordType::Input, &format!("{TXID}:")).is_err());
    assert!(validate_ref(RecordType::Input, &format!("{}:0", &TXID[1..])).is_err());
}

#[test]
fn txid_must_be_sixty_four_hex_digits() {
    assert!(validate_ref(RecordType::Tx, &TXID[1..]).is_err());
    assert!(validate_ref(RecordType::Tx, &format!("{TXID}0")).is_err());
    assert!(validate_ref(RecordType::Tx, &format!("g{}", &TXID[1..])).is_err());
}

#[test]
fn reference_errors_carry_the_parsers_account() {
    let txid_err = format!("{:?}", "bad1".parse::<bitcoin::Txid>().unwrap_err());
    match validate_ref(RecordType::Tx, "bad1") {
        Err(RefError::InvalidTxid { detail, .. }) => assert_eq!(detail, txid_err),
        other => panic!("unexpected {other:?}"),
    }
    let outpoint_err = format!("{:?}", "nope".parse::<bitcoin::OutPoint>().unwrap_err());
    match validate_ref(RecordType::Output, "nope") {
        Err(RefError::InvalidOutpoint { detail, .. }) => assert_eq!(detail, outpoint_err),
        other => panic!("unexpected {other:?}"),
    }
    let address_err = format!(
        "{:?}",
        "nope".parse::<bitcoin::Address<bitcoin::address::NetworkUnchecked>>().unwrap_err()
    );
    match validate_ref(RecordType::Addr, "nope") {
        Err(RefError::InvalidAddress { detail, .. }) => assert_eq!(detail, address_err),
        other => panic!("unexpected {other:?}"),
    }
}

#[test]
fn export_error_is_the_failing_annotations_own() {
    let good = annotation_from_record(record(RecordType::Pubkey, "02ab", None));
    let bad1 = annotation_from_record(record(RecordType::Output, &format!("{TXID}:01"), None));
    let bad2 = annotation_from_record(record(RecordType::Tx, "bad2", None));
    let own = bip329_label_from_annotation(bad1.clone()).unwrap_err();
    assert_eq!(annotations_to_bip329(vec![good, bad1, bad2]).unwrap_err(), own);
}

#[test]
fn jsonl_labels_come_back_from_export() {
    let annotations = annotations_from_jsonl(JSONL).unwrap();
    let back = annotations_to_bip329(annotations).unwrap();
    assert_eq!(back, Labels::try_from_str(JSONL).unwrap());
}
