use bdk_labels::annotation::RecordType;
use bdk_labels::db::{annotation_from_row, description_update, list_query, spendable_column};
use bdk_labels::tag::{tokens_of, Tag};

#[test]
fn list_query_without_filters() {
    let q = list_query(None, None, None, &[]);
    assert_eq!(
        q.sql,
        "SELECT id, type, ref, description, origin, spendable FROM records WHERE 1=1 ORDER BY type, ref"
    );
    assert!(q.params.is_empty());
}

#[test]
fn list_query_with_every_filter() {
    let tags = [Tag::parse("kyc:").unwrap(), Tag::parse("exchange:kraken").unwrap()];
    let q = list_query(Some(RecordType::Addr), Some("wpkh([aabbccdd])"), Some("savings"), &tags);
    assert_eq!(
        q.sql,
        "SELECT id, type, ref, description, origin, spendable FROM records WHERE 1=1 \
         AND type = ? AND origin = ? AND wallet = ? \
         AND id IN (SELECT record_id FROM tags WHERE token = ?) \
         AND id IN (SELECT record_id FROM tags WHERE token = ?) ORDER BY type, ref"
    );
    assert_eq!(q.params, vec!["addr", "wpkh([aabbccdd])", "savings", "kyc:", "exchange:kraken"]);
}

#[test]
fn row_becomes_annotation() {
    let tokens = vec!["kyc:".to_owned(), ":::".to_owned(), "a:b".to_owned()];
    let a = annotation_from_row(
        "output",
        "abcd:0".to_owned(),
        Some("change".to_owned()),
        None,
        Some(2),
        &tokens,
    )
    .unwrap();
    assert_eq!(a.record_type, RecordType::Output);
    assert_eq!(a.spendable, Some(true));
    assert_eq!(a.tags.len(), 2);
    assert_eq!(a.tags[1].segments(), &["a", "b"]);
    let a = annotation_from_row("tx", "t".to_owned(), None, None, Some(0), &vec![]).unwrap();
    assert_eq!(a.spendable, Some(false));
    let e = annotation_from_row("bogus", "t".to_owned(), None, None, None, &vec![]).unwrap_err();
    assert_eq!(e.text, "bogus");
}

#[test]
fn spendable_column_values() {
    assert_eq!(spendable_column(Some(true)), Some(1));
    assert_eq!(spendable_column(Some(false)), Some(0));
    assert_eq!(spendable_column(None), None);
}

#[test]
fn description_update_statements() {
    let s = description_update(RecordType::Tx, "abcd1234", "new desc", None);
    assert_eq!(s.sql, "UPDATE records SET description = ?1 WHERE type = ?2 AND ref = ?3");
    assert_eq!(s.params, vec!["new desc", "tx", "abcd1234"]);
    let s = description_update(RecordType::Tx, "abcd1234", "desc", Some("wpkh([aabbccdd])"));
    assert_eq!(s.sql, "UPDATE records SET description = ?1, origin = ?2 WHERE type = ?3 AND ref = ?4");
    assert_eq!(s.params, vec!["desc", "wpkh([aabbccdd])", "tx", "abcd1234"]);
}

#[test]
fn stored_annotation_reads_back() {
    let tags = vec![Tag::parse("kyc:").unwrap(), Tag::parse("cost basis:2026").unwrap()];
    for (t, spendable) in [(RecordType::Output, Some(false)), (RecordType::Input, None), (RecordType::Xpub, Some(true))] {
        let tokens = tokens_of(&tags);
        let a = annotation_from_row(
            t.as_str(),
            "r".to_owned(),
            None,
            Some("o".to_owned()),
            spendable_column(spendable),
            &tokens,
        )
        .unwrap();
        assert_eq!(a.record_type, t);
        assert_eq!(a.spendable, spendable);
        assert_eq!(a.tags, tags);
    }
}
