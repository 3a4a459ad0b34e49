use bdk_labels::annotation::RecordType;
use bdk_labels::cli::{filter_record_type, AnnotationFilter, AnnotationRef};

fn reference() -> AnnotationRef {
    AnnotationRef { tx: None, addr: None, pubkey: None, input: None, output: None, xpub: None }
}

fn filter() -> AnnotationFilter {
    AnnotationFilter {
        tx: false,
        addr: false,
        pubkey: false,
        input: false,
        output: false,
        xpub: false,
        origin: None,
        wallet: None,
        tags: vec![],
    }
}

#[test]
fn split_names_the_set_field() {
    let mut r = reference();
    r.output = Some("abcd:1".to_owned());
    assert_eq!(r.split(), (RecordType::Output, "abcd:1"));
    let mut r = reference();
    r.xpub = Some("xpub123".to_owned());
    assert_eq!(r.split(), (RecordType::Xpub, "xpub123"));
    let mut r = reference();
    r.tx = Some("t".to_owned());
    r.addr = Some("a".to_owned());
    assert_eq!(r.split(), (RecordType::Tx, "t"));
}

#[test]
fn filter_record_type_takes_first_flag() {
    assert_eq!(filter_record_type(&filter()), None);
    let mut f = filter();
    f.pubkey = true;
    assert_eq!(filter_record_type(&f), Some(RecordType::Pubkey));
    f.addr = true;
    assert_eq!(filter_record_type(&f), Some(RecordType::Addr));
}

#[test]
fn is_set_tells_whether_split_has_a_field() {
    assert!(!reference().is_set());
    let mut r = reference();
    r.input = Some("x:0".to_owned());
    assert!(r.is_set());
}
