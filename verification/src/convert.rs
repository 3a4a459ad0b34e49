//! Conversion between annotations and BIP329 labels.
//!
//! A BIP329 label reaches the library as a `Bip329Record` of plain values;
//! an annotation becomes one, and from it a BIP329 label once its reference
//! has been parsed as the bitcoin type that its record type calls for.

use vstd::prelude::*;

use bip329::Label as Bip329Label;
use bip329::Labels;
use bitcoin::address::NetworkUnchecked;
use bitcoin::{Address, OutPoint, Txid};

use crate::annotation::{Annotation, RecordType};
use crate::label::{
    label_description, label_tags, label_text, lemma_label_roundtrip, option_text, parse_label, text_or_empty, Label,
};

verus! {

#[verifier::external_type_specification]
#[verifier::external_body]
pub struct ExBip329Label(Bip329Label);

#[verifier::external_type_specification]
#[verifier::external_body]
pub struct ExLabels(Labels);

#[verifier::external_type_specification]
#[verifier::external_body]
pub struct ExTxid(Txid);

#[verifier::external_type_specification]
#[verifier::external_body]
pub struct ExOutPoint(OutPoint);

/// What a `bip329::Label` holds as plain values: its variant as record
/// type, its reference as `LabelRef`'s `Display` writes it, its label, the
/// origin of a transaction and the spendable flag of an output.
pub uninterp spec fn bip329_fields(label: Bip329Label) -> (
    RecordType,
    Seq<char>,
    Option<Seq<char>>,
    Option<Seq<char>>,
    Option<bool>,
);

/// What a `bip329::Labels` holds, in order, each label by its fields.
pub uninterp spec fn labels_records(labels: Labels) -> Seq<
    (RecordType, Seq<char>, Option<Seq<char>>, Option<Seq<char>>, Option<bool>),
>;

/// A hexadecimal digit in either case.
pub open spec fn is_hex_digit(c: char) -> bool {
    ('0' <= c && c <= '9') || ('a' <= c && c <= 'f') || ('A' <= c && c <= 'F')
}

/// A decimal digit.
pub open spec fn is_decimal_digit(c: char) -> bool {
    '0' <= c && c <= '9'
}

/// The number that a run of decimal digits writes.
pub open spec fn decimal_value(digits: Seq<char>) -> nat
    decreases digits.len(),
{
    if digits.len() == 0 {
        0
    } else {
        decimal_value(digits.drop_last()) * 10 + ((digits.last() as int) - ('0' as int)) as nat
    }
}

/// A transaction id: 64 hexadecimal digits, the texts that `Txid`'s `FromStr` accepts.
pub open spec fn is_txid_text(text: Seq<char>) -> bool {
    text.len() == 64 && forall|i: int| 0 <= i < 64 ==> #[trigger] is_hex_digit(text[i])
}

/// An output index as an outpoint writes it: decimal digits without a
/// leading zero (but for `0` itself) whose value fits in a `u32`.
pub open spec fn is_vout_text(text: Seq<char>) -> bool {
    &&& text.len() > 0
    &&& forall|i: int| 0 <= i < text.len() ==> #[trigger] is_decimal_digit(text[i])
    &&& text.len() > 1 ==> text[0] != '0'
    &&& decimal_value(text) <= u32::MAX
}

/// What `Txid`'s `FromStr` gives for `text`: the transaction id, or its
/// error as `Debug` writes it.
pub uninterp spec fn txid_from_text(text: Seq<char>) -> Result<Txid, Seq<char>>;

/// The transaction id read from `text`.
pub open spec fn parsed_txid(text: Seq<char>) -> Txid {
    txid_from_text(text)->Ok_0
}

/// The account of why `text` is not a transaction id.
pub open spec fn txid_error(text: Seq<char>) -> Seq<char> {
    txid_from_text(text)->Err_0
}

/// A transaction id as `Txid`'s `Display` writes it.
pub uninterp spec fn txid_text(txid: Txid) -> Seq<char>;

/// An outpoint `<txid>:<vout>`: the texts that `OutPoint`'s `FromStr` accepts.
pub open spec fn is_outpoint_text(text: Seq<char>) -> bool {
    &&& text.len() > 65
    &&& text[64] == ':'
    &&& is_txid_text(text.subrange(0, 64))
    &&& is_vout_text(text.subrange(65, text.len() as int))
}

/// What `OutPoint`'s `FromStr` gives for `text`: the outpoint, or its
/// error as `Debug` writes it.
pub uninterp spec fn outpoint_from_text(text: Seq<char>) -> Result<OutPoint, Seq<char>>;

/// The outpoint read from `text`.
pub open spec fn parsed_outpoint(text: Seq<char>) -> OutPoint {
    outpoint_from_text(text)->Ok_0
}

/// The account of why `text` is not an outpoint.
pub open spec fn outpoint_error(text: Seq<char>) -> Seq<char> {
    outpoint_from_text(text)->Err_0
}

/// An outpoint as `OutPoint`'s `Display` writes it.
pub uninterp spec fn outpoint_text(outpoint: OutPoint) -> Seq<char>;

/// What `Address<NetworkUnchecked>`'s `FromStr` gives for `text`: the
/// address as `Display` writes it after `assume_checked`, or the error as
/// `Debug` writes it.
pub uninterp spec fn address_from_text(text: Seq<char>) -> Result<Seq<char>, Seq<char>>;

/// Whether `text` is an address.
pub open spec fn is_address_text(text: Seq<char>) -> bool {
    address_from_text(text) is Ok
}

/// The address read from `text`, as it is written back.
pub open spec fn address_written(text: Seq<char>) -> Seq<char> {
    address_from_text(text)->Ok_0
}

/// The account of why `text` is not an address.
pub open spec fn address_error(text: Seq<char>) -> Seq<char> {
    address_from_text(text)->Err_0
}

/// Whether `text` is BIP329 JSONL, as `Labels::try_from_str` decides.
pub uninterp spec fn is_labels_jsonl(text: Seq<char>) -> bool;

/// The fields of the labels that `Labels::try_from_str` reads from `text`, in order.
pub uninterp spec fn jsonl_records(text: Seq<char>) -> Seq<
    (RecordType, Seq<char>, Option<Seq<char>>, Option<Seq<char>>, Option<bool>),
>;

/// Calls `<bitcoin::Txid as FromStr>::from_str`; on failure, the error's
/// debug text. Claims that the call succeeds exactly on the texts of 64
/// hexadecimal digits (`is_txid_text`), and that the txid or the error
/// text is what `txid_from_text` names for the text.
#[verifier::external_body]
fn parse_txid(text: &str) -> (r: Result<Txid, String>)
    ensures
        r is Ok <==> is_txid_text(text@),
        r matches Ok(t) ==> (txid_from_text(text@) matches Ok(u) && u == t),
        r matches Err(d) ==> (txid_from_text(text@) matches Err(e) && e == d@),
{
    match text.parse::<Txid>() {
        Ok(t) => Ok(t),
        Err(e) => Err(format!("{e:?}")),
    }
}

/// Calls `<bitcoin::OutPoint as FromStr>::from_str`; on failure, the
/// error's debug text. Claims that the call succeeds exactly on a txid, a
/// colon and a canonical `u32` index (`is_outpoint_text`), with the
/// outpoint or the error text that `outpoint_from_text` names for the text.
#[verifier::external_body]
fn parse_outpoint(text: &str) -> (r: Result<OutPoint, String>)
    ensures
        r is Ok <==> is_outpoint_text(text@),
        r matches Ok(o) ==> (outpoint_from_text(text@) matches Ok(u) && u == o),
        r matches Err(d) ==> (outpoint_from_text(text@) matches Err(e) && e == d@),
{
    match text.parse::<OutPoint>() {
        Ok(o) => Ok(o),
        Err(e) => Err(format!("{e:?}")),
    }
}

/// Calls `<Address<NetworkUnchecked> as FromStr>::from_str` and puts the
/// address into a `bip329::AddressRecord` with the given label; on failure,
/// the error's debug text. Claims that the call gives what
/// `address_from_text` names for the text, and the fields of the label built.
#[verifier::external_body]
fn address_label(text: &str, label: Option<String>) -> (r: Result<Bip329Label, String>)
    ensures
        r is Ok <==> address_from_text(text@) is Ok,
        r matches Err(d) ==> (address_from_text(text@) matches Err(e) && e == d@),
        r matches Ok(l) ==> bip329_fields(l) == (
            RecordType::Addr,
            address_written(text@),
            option_text(label),
            None::<Seq<char>>,
            None::<bool>,
        ),
{
    match text.parse::<Address<NetworkUnchecked>>() {
        Ok(a) => Ok(Bip329Label::Address(bip329::AddressRecord { ref_: a, label })),
        Err(e) => Err(format!("{e:?}")),
    }
}

/// Builds `bip329::Label::Transaction` of a txid, label and origin, and
/// claims its fields.
#[verifier::external_body]
fn transaction_label(txid: Txid, label: Option<String>, origin: Option<String>) -> (r: Bip329Label)
    ensures
        bip329_fields(r) == (
            RecordType::Tx,
            txid_text(txid),
            option_text(label),
            option_text(origin),
            None::<bool>,
        ),
{
    Bip329Label::Transaction(bip329::TransactionRecord { ref_: txid, label, origin })
}

/// Builds `bip329::Label::PublicKey` of a key text and label, and claims
/// its fields.
#[verifier::external_body]
fn pubkey_label(text: String, label: Option<String>) -> (r: Bip329Label)
    ensures
        bip329_fields(r) == (RecordType::Pubkey, text@, option_text(label), None::<Seq<char>>, None::<bool>),
{
    Bip329Label::PublicKey(bip329::PublicKeyRecord { ref_: text, label })
}

/// Builds `bip329::Label::Input` of an outpoint and label, and claims its fields.
#[verifier::external_body]
fn input_label(outpoint: OutPoint, label: Option<String>) -> (r: Bip329Label)
    ensures
        bip329_fields(r) == (
            RecordType::Input,
            outpoint_text(outpoint),
            option_text(label),
            None::<Seq<char>>,
            None::<bool>,
        ),
{
    Bip329Label::Input(bip329::InputRecord { ref_: outpoint, label })
}

/// Builds `bip329::Label::Output` of an outpoint, label and spendable flag,
/// and claims its fields.
#[verifier::external_body]
fn output_label(outpoint: OutPoint, label: Option<String>, spendable: Option<bool>) -> (r: Bip329Label)
    ensures
        bip329_fields(r) == (
            RecordType::Output,
            outpoint_text(outpoint),
            option_text(label),
            None::<Seq<char>>,
            spendable,
        ),
{
    Bip329Label::Output(bip329::OutputRecord { ref_: outpoint, label, spendable })
}

/// Builds `bip329::Label::ExtendedPublicKey` of an xpub text and label, and
/// claims its fields.
#[verifier::external_body]
fn xpub_label(text: String, label: Option<String>) -> (r: Bip329Label)
    ensures
        bip329_fields(r) == (RecordType::Xpub, text@, option_text(label), None::<Seq<char>>, None::<bool>),
{
    Bip329Label::ExtendedPublicKey(bip329::ExtendedPublicKeyRecord { ref_: text, label })
}

/// The record type of a `bip329::Label`'s variant.
#[verifier::external_body]
fn label_kind(label: &Bip329Label) -> (r: RecordType)
    ensures
        r == bip329_fields(*label).0,
{
    match label {
        Bip329Label::Transaction(_) => RecordType::Tx,
        Bip329Label::Address(_) => RecordType::Addr,
        Bip329Label::PublicKey(_) => RecordType::Pubkey,
        Bip329Label::Input(_) => RecordType::Input,
        Bip329Label::Output(_) => RecordType::Output,
        Bip329Label::ExtendedPublicKey(_) => RecordType::Xpub,
    }
}

/// Calls `bip329::Label::ref_` and writes the reference out with
/// `LabelRef`'s `Display` (an address after `assume_checked`). Claims that
/// this text is a valid reference of the label's record type which its
/// bitcoin type reads and writes back unchanged: a txid, outpoint or address
/// parsed from its own `Display` is the same value.
#[verifier::external_body]
fn label_ref_text(label: &Bip329Label) -> (r: String)
    ensures
        r@ == bip329_fields(*label).1,
        ref_is_valid(bip329_fields(*label).0, r@),
        written_ref(bip329_fields(*label).0, r@) == r@,
{
    label.ref_().to_string()
}

/// Calls `bip329::Label::label`, the label text of any variant.
#[verifier::external_body]
fn label_label_text(label: &Bip329Label) -> (r: Option<String>)
    ensures
        option_text(r) == bip329_fields(*label).2,
{
    match label.label() {
        Some(t) => Some(t.to_owned()),
        None => None,
    }
}

/// The `origin` field of a transaction label; none for other variants,
/// which have no such field.
#[verifier::external_body]
fn label_origin(label: &Bip329Label) -> (r: Option<String>)
    ensures
        option_text(r) == bip329_fields(*label).3,
        bip329_fields(*label).0 != RecordType::Tx ==> r is None,
{
    match label {
        Bip329Label::Transaction(r) => r.origin.clone(),
        _ => None,
    }
}

/// The `spendable` field of an output label; none for other variants,
/// which have no such field.
#[verifier::external_body]
fn label_spendable(label: &Bip329Label) -> (r: Option<bool>)
    ensures
        r == bip329_fields(*label).4,
        bip329_fields(*label).0 != RecordType::Output ==> r is None,
{
    match label {
        Bip329Label::Output(r) => r.spendable,
        _ => None,
    }
}

/// A BIP329 label taken apart into plain values; only a transaction
/// carries an origin and only an output a spendable flag.
fn record_of_label(label: &Bip329Label) -> (r: Bip329Record)
    ensures
        r@ == bip329_fields(*label),
        label_record(r@),
        r.record_type != RecordType::Tx ==> r.origin is None,
        r.record_type != RecordType::Output ==> r.spendable is None,
{
    Bip329Record {
        record_type: label_kind(label),
        ref_: label_ref_text(label),
        label: label_label_text(label),
        origin: label_origin(label),
        spendable: label_spendable(label),
    }
}

/// Calls `bip329::Labels::into_vec`: the labels held, in order, each
/// holding what every BIP329 label holds (`label_record`).
#[verifier::external_body]
fn labels_into_vec(labels: Labels) -> (r: Vec<Bip329Label>)
    ensures
        r@.map_values(|l: Bip329Label| bip329_fields(l)) == labels_records(labels),
        forall|i: int| 0 <= i < r@.len() ==> label_record(bip329_fields(#[trigger] r@[i])),
{
    labels.into_vec()
}

/// Calls `bip329::Labels::new`: labels that hold the given ones, in order.
#[verifier::external_body]
fn labels_new(labels: Vec<Bip329Label>) -> (r: Labels)
    ensures
        labels_records(r) == labels@.map_values(|l: Bip329Label| bip329_fields(l)),
{
    Labels::new(labels)
}

/// Calls `bip329::Labels::try_from_str`; on failure, the error's text.
/// Claims that the call succeeds exactly on the texts that
/// `is_labels_jsonl` names, with the labels that `jsonl_records` names,
/// each holding what every BIP329 label holds (`label_record`).
#[verifier::external_body]
fn labels_from_jsonl(text: &str) -> (r: Result<Labels, String>)
    ensures
        r is Ok <==> is_labels_jsonl(text@),
        r matches Ok(ls) ==> labels_records(ls) == jsonl_records(text@),
        r matches Ok(ls) ==> forall|i: int|
            0 <= i < labels_records(ls).len() ==> label_record(#[trigger] labels_records(ls)[i]),
{
    match Labels::try_from_str(text) {
        Ok(ls) => Ok(ls),
        Err(e) => Err(e.to_string()),
    }
}

/// A BIP329 record as plain values.
#[derive(Debug, Clone, PartialEq, Eq)]
pub struct Bip329Record {
    pub record_type: RecordType,
    pub ref_: String,
    pub label: Option<String>,
    pub origin: Option<String>,
    pub spendable: Option<bool>,
}

impl View for Bip329Record {
    type V = (RecordType, Seq<char>, Option<Seq<char>>, Option<Seq<char>>, Option<bool>);

    open spec fn view(&self) -> Self::V {
        (self.record_type, self.ref_@, option_text(self.label), option_text(self.origin), self.spendable)
    }
}


/// Why a reference cannot be written as the bitcoin type its record type
/// calls for; `detail` is the parser's own account.
#[derive(Debug, Clone, PartialEq, Eq)]
pub enum RefError {
    InvalidTxid { text: String, detail: String },
    InvalidAddress { text: String, detail: String },
    InvalidOutpoint { record_type: RecordType, text: String, detail: String },
}

/// Whether `text` is a reference of the kind that `t` calls for: public keys
/// and xpubs are taken as they are.
pub open spec fn ref_is_valid(t: RecordType, text: Seq<char>) -> bool {
    match t {
        RecordType::Tx => is_txid_text(text),
        RecordType::Addr => is_address_text(text),
        RecordType::Input | RecordType::Output => is_outpoint_text(text),
        RecordType::Pubkey | RecordType::Xpub => true,
    }
}

/// `e` reports `text` as an invalid reference for a record of type `t`,
/// with the parser's own account of it.
pub open spec fn reports(e: RefError, t: RecordType, text: Seq<char>) -> bool {
    match e {
        RefError::InvalidTxid { text: x, detail } => t == RecordType::Tx && x@ == text && detail@
            == txid_error(text),
        RefError::InvalidAddress { text: x, detail } => t == RecordType::Addr && x@ == text && detail@
            == address_error(text),
        RefError::InvalidOutpoint { record_type, text: x, detail } => (t == RecordType::Input || t
            == RecordType::Output) && record_type == t && x@ == text && detail@ == outpoint_error(
            text,
        ),
    }
}

/// The annotation that a BIP329 record gives: description and tags parsed
/// from its label, the origin of a transaction, the spendable flag of an
/// output (spendable unless it says otherwise).
pub open spec fn annotation_of_record(
    r: (RecordType, Seq<char>, Option<Seq<char>>, Option<Seq<char>>, Option<bool>),
) -> (RecordType, Seq<char>, Option<Seq<char>>, Option<Seq<char>>, Option<bool>, Seq<Seq<Seq<char>>>) {
    let l = parse_label(text_or_empty(r.2));
    (
        r.0,
        r.1,
        l.0,
        if r.0 == RecordType::Tx { r.3 } else { None },
        if r.0 == RecordType::Output {
            Some(
                match r.4 {
                    Some(b) => b,
                    None => true,
                },
            )
        } else {
            None
        },
        l.1,
    )
}

/// The BIP329 record that an annotation gives: description and tags
/// written into its label, the origin of a transaction, the spendable flag
/// of an output (spendable unless it says otherwise).
pub open spec fn record_of_annotation(
    a: (RecordType, Seq<char>, Option<Seq<char>>, Option<Seq<char>>, Option<bool>, Seq<Seq<Seq<char>>>),
) -> (RecordType, Seq<char>, Option<Seq<char>>, Option<Seq<char>>, Option<bool>) {
    (
        a.0,
        a.1,
        label_text(a.2, a.5),
        if a.0 == RecordType::Tx { a.3 } else { None },
        if a.0 == RecordType::Output {
            Some(
                match a.4 {
                    Some(b) => b,
                    None => true,
                },
            )
        } else {
            None
        },
    )
}

/// The annotation of a BIP329 record.
pub fn annotation_from_record(record: Bip329Record) -> (a: Annotation)
    ensures
        a@ == annotation_of_record(record@),
{
    proof {
        reveal_strlit("");
    }
    let parsed = match &record.label {
        Some(l) => Label::parse(l.as_str()),
        None => Label::parse(""),
    };
    assert(""@ =~= Seq::<char>::empty());
    let origin = match record.record_type {
        RecordType::Tx => record.origin,
        _ => None,
    };
    let spendable = match record.record_type {
        RecordType::Output => Some(
            match record.spendable {
                Some(b) => b,
                None => true,
            },
        ),
        _ => None,
    };
    Annotation {
        record_type: record.record_type,
        ref_: record.ref_,
        description: parsed.description,
        origin,
        spendable,
        tags: parsed.tags,
    }
}

/// The BIP329 record of an annotation.
pub fn record_from_annotation(a: Annotation) -> (r: Bip329Record)
    ensures
        r@ == record_of_annotation(a@),
{
    let label = Label { description: a.description, tags: a.tags }.to_bip329_string();
    let origin = match a.record_type {
        RecordType::Tx => a.origin,
        _ => None,
    };
    let spendable = match a.record_type {
        RecordType::Output => Some(
            match a.spendable {
                Some(b) => b,
                None => true,
            },
        ),
        _ => None,
    };
    Bip329Record { record_type: a.record_type, ref_: a.ref_, label, origin, spendable }
}

/// Checks that `text` is a reference of the kind that `record_type` calls for.
pub fn validate_ref(record_type: RecordType, text: &str) -> (r: Result<(), RefError>)
    ensures
        r is Ok <==> ref_is_valid(record_type, text@),
        r matches Err(e) ==> reports(e, record_type, text@),
{
    match record_type {
        RecordType::Tx => match parse_txid(text) {
            Ok(_) => Ok(()),
            Err(detail) => Err(RefError::InvalidTxid { text: text.to_owned(), detail }),
        },
        RecordType::Addr => match address_label(text, None) {
            Ok(_) => Ok(()),
            Err(detail) => Err(RefError::InvalidAddress { text: text.to_owned(), detail }),
        },
        RecordType::Input | RecordType::Output => match parse_outpoint(text) {
            Ok(_) => Ok(()),
            Err(detail) => Err(
                RefError::InvalidOutpoint { record_type, text: text.to_owned(), detail },
            ),
        },
        RecordType::Pubkey | RecordType::Xpub => Ok(()),
    }
}

/// A reference as the bitcoin type that `t` calls for writes it back;
/// public keys and xpubs are kept as they are.
pub open spec fn written_ref(t: RecordType, text: Seq<char>) -> Seq<char> {
    match t {
        RecordType::Tx => txid_text(parsed_txid(text)),
        RecordType::Addr => address_written(text),
        RecordType::Input | RecordType::Output => outpoint_text(parsed_outpoint(text)),
        RecordType::Pubkey | RecordType::Xpub => text,
    }
}

/// The fields of the BIP329 label that a record becomes: its reference as
/// written back, its label, the origin of a transaction and the spendable
/// flag of an output.
pub open spec fn label_fields(
    r: (RecordType, Seq<char>, Option<Seq<char>>, Option<Seq<char>>, Option<bool>),
) -> (RecordType, Seq<char>, Option<Seq<char>>, Option<Seq<char>>, Option<bool>) {
    (
        r.0,
        written_ref(r.0, r.1),
        r.2,
        if r.0 == RecordType::Tx { r.3 } else { None },
        if r.0 == RecordType::Output { r.4 } else { None },
    )
}

/// The BIP329 label of a record, once its reference is parsed as the
/// bitcoin type that its record type calls for.
pub fn label_from_record(record: Bip329Record) -> (r: Result<Bip329Label, RefError>)
    ensures
        r is Ok <==> ref_is_valid(record.record_type, record.ref_@),
        r matches Ok(l) ==> bip329_fields(l) == label_fields(record@),
        r matches Err(e) ==> reports(e, record.record_type, record.ref_@),
{
    match record.record_type {
        RecordType::Tx => match parse_txid(record.ref_.as_str()) {
            Ok(txid) => Ok(transaction_label(txid, record.label, record.origin)),
            Err(detail) => Err(RefError::InvalidTxid { text: record.ref_, detail }),
        },
        RecordType::Addr => match address_label(record.ref_.as_str(), record.label) {
            Ok(l) => Ok(l),
            Err(detail) => Err(RefError::InvalidAddress { text: record.ref_, detail }),
        },
        RecordType::Pubkey => Ok(pubkey_label(record.ref_, record.label)),
        RecordType::Input => match parse_outpoint(record.ref_.as_str()) {
            Ok(o) => Ok(input_label(o, record.label)),
            Err(detail) => Err(
                RefError::InvalidOutpoint { record_type: RecordType::Input, text: record.ref_, detail },
            ),
        },
        RecordType::Output => match parse_outpoint(record.ref_.as_str()) {
            Ok(o) => Ok(output_label(o, record.label, record.spendable)),
            Err(detail) => Err(
                RefError::InvalidOutpoint { record_type: RecordType::Output, text: record.ref_, detail },
            ),
        },
        RecordType::Xpub => Ok(xpub_label(record.ref_, record.label)),
    }
}

/// The annotation of a BIP329 label: the label taken apart into its
/// fields, then read as `annotation_from_record` reads a record.
pub fn annotation_from_bip329_label(label: Bip329Label) -> (a: Annotation)
    ensures
        a@ == annotation_of_record(bip329_fields(label)),
{
    let record = record_of_label(&label);
    annotation_from_record(record)
}

/// The BIP329 label of an annotation, or why its reference does not fit.
pub fn bip329_label_from_annotation(a: Annotation) -> (r: Result<Bip329Label, RefError>)
    ensures
        r is Ok <==> ref_is_valid(a.record_type, a.ref_@),
        r matches Ok(l) ==> bip329_fields(l) == label_fields(record_of_annotation(a@)),
        r matches Err(e) ==> reports(e, a.record_type, a.ref_@),
{
    label_from_record(record_from_annotation(a))
}

/// The annotations of all labels, in order.
pub fn annotations_from_bip329(labels: Labels) -> (r: Vec<Annotation>)
    ensures
        r@.len() == labels_records(labels).len(),
        forall|i: int| 0 <= i < r@.len() ==> (#[trigger] r@[i])@ == annotation_of_record(labels_records(labels)[i]),
        forall|i: int| 0 <= i < labels_records(labels).len() ==> label_record(#[trigger] labels_records(labels)[i]),
{
    let items = labels_into_vec(labels);
    let ghost views = items@.map_values(|l: Bip329Label| bip329_fields(l));
    let mut r: Vec<Annotation> = Vec::new();
    for l in it: items
        invariant
            it.seq().map_values(|l: Bip329Label| bip329_fields(l)) == views,
            r@.len() == it.index(),
            forall|i: int| 0 <= i < r@.len() ==> (#[trigger] r@[i])@ == annotation_of_record(views[i]),
    {
        let ghost i: int = it.index() as int;
        assert(bip329_fields(l) == views[i]);
        let a = annotation_from_bip329_label(l);
        let ghost before = r@;
        r.push(a);
        proof {
            assert forall|j: int| 0 <= j < r@.len() implies (#[trigger] r@[j])@ == annotation_of_record(views[j]) by {
                if j < before.len() {
                    assert(r@[j] == before[j]);
                }
            }
        }
    }
    r
}

/// The annotations of the labels that BIP329 JSONL text holds, in order,
/// or the parser's account of why the text is not BIP329 JSONL.
pub fn annotations_from_jsonl(text: &str) -> (r: Result<Vec<Annotation>, String>)
    ensures
        r is Ok <==> is_labels_jsonl(text@),
        r matches Ok(v) ==> v@.len() == jsonl_records(text@).len() && forall|i: int|
            0 <= i < v@.len() ==> (#[trigger] v@[i])@ == annotation_of_record(jsonl_records(text@)[i]),
        r is Ok ==> forall|i: int|
            0 <= i < jsonl_records(text@).len() ==> label_record(#[trigger] jsonl_records(text@)[i]),
{
    match labels_from_jsonl(text) {
        Ok(labels) => Ok(annotations_from_bip329(labels)),
        Err(e) => Err(e),
    }
}

/// The BIP329 labels of all annotations, in order; the first annotation
/// whose reference does not fit its record type stops the conversion.
pub fn annotations_to_bip329(annotations: Vec<Annotation>) -> (r: Result<Labels, RefError>)
    ensures
        r is Ok <==> forall|i: int| 0 <= i < annotations@.len() ==> ref_is_valid(
            #[trigger] annotations@[i].record_type,
            annotations@[i].ref_@,
        ),
        r matches Ok(ls) ==> labels_records(ls) == annotations@.map_values(
            |a: Annotation| label_fields(record_of_annotation(a@)),
        ),
        r matches Err(e) ==> exists|i: int|
            0 <= i < annotations@.len() && !ref_is_valid(
                #[trigger] annotations@[i].record_type,
                annotations@[i].ref_@,
            ) && reports(e, annotations@[i].record_type, annotations@[i].ref_@) && forall|j: int|
                0 <= j < i ==> ref_is_valid(annotations@[j].record_type, annotations@[j].ref_@),
{
    let ghost all = annotations@;
    let ghost want = all.map_values(|a: Annotation| label_fields(record_of_annotation(a@)));
    let mut out: Vec<Bip329Label> = Vec::new();
    for a in it: annotations
        invariant
            it.seq() == all,
            want == all.map_values(|a: Annotation| label_fields(record_of_annotation(a@))),
            out@.len() == it.index(),
            forall|j: int| 0 <= j < it.index() ==> ref_is_valid(#[trigger] all[j].record_type, all[j].ref_@),
            forall|j: int| 0 <= j < it.index() ==> bip329_fields(#[trigger] out@[j]) == want[j],
    {
        let ghost i: int = it.index() as int;
        let ghost av = a@;
        match bip329_label_from_annotation(a) {
            Ok(l) => {
                let ghost before = out@;
                out.push(l);
                proof {
                    assert(av == all[i]@);
                    assert forall|j: int| 0 <= j < i + 1 implies bip329_fields(#[trigger] out@[j]) == want[j] by {
                        if j < i {
                            assert(out@[j] == before[j]);
                        }
                    }
                }
            },
            Err(e) => {
                assert(!ref_is_valid(all[i].record_type, all[i].ref_@));
                return Err(e);
            },
        }
    }
    proof {
        assert(out@.map_values(|l: Bip329Label| bip329_fields(l)) =~= want);
    }
    Ok(labels_new(out))
}

/// What every BIP329 label holds: a reference valid for its record type
/// and written as its bitcoin type writes it, an origin only on a
/// transaction and a spendable flag only on an output.
pub open spec fn label_record(
    r: (RecordType, Seq<char>, Option<Seq<char>>, Option<Seq<char>>, Option<bool>),
) -> bool {
    &&& ref_is_valid(r.0, r.1)
    &&& written_ref(r.0, r.1) == r.1
    &&& r.0 != RecordType::Tx ==> r.3 is None
    &&& r.0 != RecordType::Output ==> r.4 is None
}

/// A label record that survives being read into an annotation and written
/// back: its label text is as the format writes it, and an output says
/// whether it is spendable.
pub open spec fn carried_record(
    r: (RecordType, Seq<char>, Option<Seq<char>>, Option<Seq<char>>, Option<bool>),
) -> bool {
    &&& label_record(r)
    &&& ({
        let l = parse_label(text_or_empty(r.2));
        label_text(l.0, l.1) == r.2
    })
    &&& r.0 == RecordType::Output ==> r.4 is Some
}

/// Importing BIP329 labels and exporting the annotations gives the labels
/// back, for label records (as `labels_records` or `jsonl_records` name
/// them) whose label text is in the format's own form and whose outputs say
/// whether they are spendable: every annotation read from them converts,
/// and the labels written hold the same fields.
pub proof fn lemma_import_export_roundtrip(
    records: Seq<(RecordType, Seq<char>, Option<Seq<char>>, Option<Seq<char>>, Option<bool>)>,
)
    requires
        forall|i: int| 0 <= i < records.len() ==> carried_record(#[trigger] records[i]),
    ensures
        ({
            let annotations = records.map_values(
                |r: (RecordType, Seq<char>, Option<Seq<char>>, Option<Seq<char>>, Option<bool>)|
                    annotation_of_record(r),
            );
            &&& forall|i: int| 0 <= i < annotations.len() ==> ref_is_valid(
                (#[trigger] annotations[i]).0,
                annotations[i].1,
            )
            &&& annotations.map_values(
                |a: (RecordType, Seq<char>, Option<Seq<char>>, Option<Seq<char>>, Option<bool>, Seq<Seq<Seq<char>>>)|
                    label_fields(record_of_annotation(a)),
            ) == records
        }),
{
    let annotations = records.map_values(
        |r: (RecordType, Seq<char>, Option<Seq<char>>, Option<Seq<char>>, Option<bool>)|
            annotation_of_record(r),
    );
    let back = annotations.map_values(
        |a: (RecordType, Seq<char>, Option<Seq<char>>, Option<Seq<char>>, Option<bool>, Seq<Seq<Seq<char>>>)|
            label_fields(record_of_annotation(a)),
    );
    assert forall|i: int| 0 <= i < records.len() implies back[i] == records[i] by {
        assert(carried_record(records[i]));
        assert(annotations[i] == annotation_of_record(records[i]));
    }
    assert(back =~= records);
}

/// Reading back the record of an annotation gives the annotation, for
/// annotations whose label the format can carry, with an origin only on a
/// transaction and a spendable flag exactly on an output.
pub proof fn lemma_annotation_roundtrip(
    a: (RecordType, Seq<char>, Option<Seq<char>>, Option<Seq<char>>, Option<bool>, Seq<Seq<Seq<char>>>),
)
    requires
        a.2 matches Some(d) ==> label_description(d),
        label_tags(a.5),
        a.0 != RecordType::Tx ==> a.3 is None,
        a.0 == RecordType::Output <==> a.4 is Some,
    ensures
        annotation_of_record(record_of_annotation(a)) == a,
{
    lemma_label_roundtrip(a.2, a.5);
}

} // verus!
